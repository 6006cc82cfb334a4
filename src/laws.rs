//! Properties of the protocol, stated over the models that the operations'
//! contracts use.
use crate::bignum::mod_pow_spec;
use crate::group::{commitment, group_ok, proof_accepts, response, GroupModel};
use crate::registry::{
    after_challenge, after_register, after_verify, register_result, verify_result, AuthError, RecordModel,
};
use vstd::arithmetic::div_mod::{
    lemma_fundamental_div_mod, lemma_mod_equivalence, lemma_mod_multiples_basic, lemma_mul_mod_noop,
    lemma_mul_mod_noop_left, lemma_small_mod,
};
use vstd::arithmetic::power::{lemma_pow_adds, lemma_pow_multiplies, lemma_pow_mod_noop, pow};
use vstd::prelude::*;

verus! {

/// An honest answer passes the verification equation: with `y1 = g^x`,
/// `y2 = g^k` and `s = k + c*x`, `g^s == y2 * y1^c (mod p)`.
pub proof fn lemma_honest_answer_accepted(g: GroupModel, secret: nat, nonce: nat, c: nat)
    requires
        group_ok(g),
    ensures
        proof_accepts(g, commitment(g, secret), commitment(g, nonce), c, response(nonce, c, secret)),
{
    let p = g.modulus as int;
    let b = g.generator as int;
    lemma_pow_adds(b, nonce, c * secret);
    assert(c * secret == secret * c) by (nonlinear_arith);
    lemma_pow_multiplies(b, secret, c);
    lemma_pow_mod_noop(pow(b, secret), c, p);
    lemma_mul_mod_noop(pow(b, nonce), pow(b, secret * c), p);
    assert(mod_pow_spec(commitment(g, secret), c, g.modulus) == pow(b, secret * c) % p);
}

/// Completeness: a user registered with `g^secret` and `g^nonce`, then challenged
/// with `c`, is accepted when answering `nonce + c * secret`.
pub proof fn lemma_completeness(
    g: GroupModel,
    m: Map<Seq<char>, RecordModel>,
    name: Seq<char>,
    secret: nat,
    nonce: nat,
    c: nat,
)
    requires
        group_ok(g),
        !m.contains_key(name),
    ensures
        verify_result(
            g,
            after_challenge(after_register(m, name, commitment(g, secret), commitment(g, nonce)), name, c),
            name,
            response(nonce, c, secret),
        ) == Ok::<(), AuthError>(()),
{
    lemma_honest_answer_accepted(g, secret, nonce, c);
}

/// `p` is prime.
pub open spec fn is_prime(p: nat) -> bool {
    p > 1 && forall|d: nat| 1 < d < p ==> #[trigger] (p % d) != 0
}

/// Euclid's lemma: a prime that divides `a * b` and not `a` divides `b`.
pub proof fn lemma_euclid(p: nat, a: nat, b: int)
    requires
        is_prime(p),
        0 < a < p,
        (a * b) % (p as int) == 0,
    ensures
        b % (p as int) == 0,
    decreases a,
{
    if a == 1 {
        assert(a * b == b);
    } else {
        let pi = p as int;
        let ai = a as int;
        let q = pi / ai;
        let r = pi % ai;
        lemma_fundamental_div_mod(pi, ai);
        assert(p % a != 0);
        assert(0 < r < ai);
        let t = (ai * b) / pi;
        lemma_fundamental_div_mod(ai * b, pi);
        assert(ai * b == pi * t);
        assert(r * b == (b - q * t) * pi) by (nonlinear_arith)
            requires
                pi == ai * q + r,
                ai * b == pi * t,
        ;
        lemma_mod_multiples_basic(b - q * t, pi);
        lemma_euclid(p, r as nat, b);
    }
}

/// No power of a generator strictly between zero and a prime is divisible by it.
pub proof fn lemma_pow_not_divisible(p: nat, b: nat, e: nat)
    requires
        is_prime(p),
        0 < b < p,
    ensures
        pow(b as int, e) % (p as int) != 0,
    decreases e,
{
    reveal(pow);
    if e == 0 {
        lemma_small_mod(1, p);
    } else {
        lemma_pow_not_divisible(p, b, (e - 1) as nat);
        if pow(b as int, e) % (p as int) == 0 {
            lemma_euclid(p, b, pow(b as int, (e - 1) as nat));
        }
    }
}

/// Cancellation modulo a prime: a factor not divisible by `p` cancels from both
/// sides of a congruence.
pub proof fn lemma_cancel(p: nat, a: int, x: int, y: int)
    requires
        is_prime(p),
        a % (p as int) != 0,
        (a * x) % (p as int) == (a * y) % (p as int),
    ensures
        x % (p as int) == y % (p as int),
{
    let pi = p as int;
    let ar = a % pi;
    assert(a * x - a * y == a * (x - y)) by (nonlinear_arith);
    lemma_mod_equivalence(a * x, a * y, pi);
    lemma_mul_mod_noop_left(a, x - y, pi);
    lemma_euclid(p, ar as nat, x - y);
    lemma_mod_equivalence(x, y, pi);
}

/// Over a prime modulus, an answer `nonce + e` passes against commitments `g^secret`,
/// `g^nonce` and challenge `c` only if `g^e == g^(c*secret)`.
pub proof fn lemma_accepted_exponent(g: GroupModel, secret: nat, nonce: nat, c: nat, e: nat)
    requires
        group_ok(g),
        is_prime(g.modulus),
        proof_accepts(g, commitment(g, secret), commitment(g, nonce), c, nonce + e),
    ensures
        commitment(g, e) == commitment(g, c * secret),
{
    let p = g.modulus as int;
    let b = g.generator as int;
    lemma_honest_answer_accepted(g, secret, nonce, c);
    lemma_pow_adds(b, nonce, e);
    lemma_pow_adds(b, nonce, c * secret);
    lemma_pow_not_divisible(g.modulus, g.generator, nonce);
    lemma_cancel(g.modulus, pow(b, nonce), pow(b, e), pow(b, c * secret));
}

/// Soundness: over a prime modulus, answering a challenge with a wrong secret whose
/// power `g^(c*wrong)` differs from `g^(c*secret)` is refused with `InvalidProof`.
pub proof fn lemma_soundness(
    g: GroupModel,
    m: Map<Seq<char>, RecordModel>,
    name: Seq<char>,
    secret: nat,
    wrong: nat,
    nonce: nat,
    c: nat,
)
    requires
        group_ok(g),
        is_prime(g.modulus),
        !m.contains_key(name),
        commitment(g, c * wrong) != commitment(g, c * secret),
    ensures
        verify_result(
            g,
            after_challenge(after_register(m, name, commitment(g, secret), commitment(g, nonce)), name, c),
            name,
            response(nonce, c, wrong),
        ) == Err::<(), AuthError>(AuthError::InvalidProof),
{
    if proof_accepts(g, commitment(g, secret), commitment(g, nonce), c, nonce + c * wrong) {
        lemma_accepted_exponent(g, secret, nonce, c, c * wrong);
    }
}

/// No replay across issuances: over a prime modulus, after challenges `c1` then `c2`,
/// the honest answer to `c1` is refused with `InvalidProof` whenever
/// `g^(c1*secret)` differs from `g^(c2*secret)`, while the answer to `c2` passes.
pub proof fn lemma_stale_answer_refused(
    g: GroupModel,
    m: Map<Seq<char>, RecordModel>,
    name: Seq<char>,
    secret: nat,
    nonce: nat,
    c1: nat,
    c2: nat,
)
    requires
        group_ok(g),
        is_prime(g.modulus),
        !m.contains_key(name),
        commitment(g, c1 * secret) != commitment(g, c2 * secret),
    ensures
        verify_result(
            g,
            after_challenge(
                after_challenge(after_register(m, name, commitment(g, secret), commitment(g, nonce)), name, c1),
                name,
                c2,
            ),
            name,
            response(nonce, c1, secret),
        ) == Err::<(), AuthError>(AuthError::InvalidProof),
        verify_result(
            g,
            after_challenge(
                after_challenge(after_register(m, name, commitment(g, secret), commitment(g, nonce)), name, c1),
                name,
                c2,
            ),
            name,
            response(nonce, c2, secret),
        ) == Ok::<(), AuthError>(()),
{
    let m1 = after_register(m, name, commitment(g, secret), commitment(g, nonce));
    lemma_latest_challenge_only(g, m1, name, c1, c2, response(nonce, c1, secret));
    lemma_completeness(g, m, name, secret, nonce, c2);
    if proof_accepts(g, commitment(g, secret), commitment(g, nonce), c2, nonce + c1 * secret) {
        lemma_accepted_exponent(g, secret, nonce, c2, c1 * secret);
    }
}

/// A challenge is single-use: once `verify` has consumed it, whatever the outcome,
/// another answer is refused with `ProtocolViolation`.
pub proof fn lemma_challenge_single_use(
    g: GroupModel,
    m: Map<Seq<char>, RecordModel>,
    name: Seq<char>,
    s1: nat,
    s2: nat,
)
    requires
        m.contains_key(name),
    ensures
        verify_result(g, after_verify(g, m, name, s1), name, s2) == Err::<(), AuthError>(
            AuthError::ProtocolViolation,
        ),
{
}

/// Only the latest challenge counts: issuing `c1` then `c2` leaves the user exactly
/// as issuing `c2` alone, so an answer is judged against `c2` only.
pub proof fn lemma_latest_challenge_only(
    g: GroupModel,
    m: Map<Seq<char>, RecordModel>,
    name: Seq<char>,
    c1: nat,
    c2: nat,
    s: nat,
)
    ensures
        after_challenge(after_challenge(m, name, c1), name, c2) == after_challenge(m, name, c2),
        verify_result(g, after_challenge(after_challenge(m, name, c1), name, c2), name, s)
            == verify_result(g, after_challenge(m, name, c2), name, s),
{
    assert(after_challenge(after_challenge(m, name, c1), name, c2) =~= after_challenge(m, name, c2));
}

/// A username registered once cannot be registered again.
pub proof fn lemma_duplicate_registration(
    m: Map<Seq<char>, RecordModel>,
    name: Seq<char>,
    y1: nat,
    y2: nat,
)
    ensures
        register_result(after_register(m, name, y1, y2), name) == Err::<(), AuthError>(AuthError::DuplicateUser),
{
}

} // verus!
