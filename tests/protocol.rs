use choam::bignum::Nat;
use choam::group::Params;
use choam::prover::{Prover, ProverState};
use choam::registry::{AuthError, Registry, Status};
use choam::session::{Claims, SESSION_SECONDS};
use num_bigint::BigUint;

fn n(v: u64) -> Nat {
    Nat::from_u64(v)
}

fn big(decimal: &str) -> Nat {
    Nat::from_digits(BigUint::parse_bytes(decimal.as_bytes(), 10).unwrap().to_u32_digits())
}

fn to_big(x: &Nat) -> BigUint {
    BigUint::new(x.copy().into_digits())
}

fn small_group() -> Params {
    Params::service_default()
}

// 2^127 - 1 is prime; 3 is a quadratic non-residue modulo it.
fn large_group() -> Params {
    Params::new(big("170141183460469231731687303715884105727"), n(3)).unwrap()
}

fn name(s: &str) -> String {
    s.to_string()
}

#[test]
fn concrete_scenario_small_group() {
    let params = small_group();
    let mut prover = Prover::new(small_group());
    let (y1, y2) = prover.register_with_nonce(name("alice"), n(42), n(17));
    assert_eq!(y1.to_u64(), Some(32711));
    assert_eq!(y2.to_u64(), Some(24594));

    let mut reg = Registry::new();
    assert_eq!(reg.register(name("alice"), y1, y2), Ok(()));
    assert_eq!(reg.status(&name("alice")), Some(Status::Registered));
    assert_eq!(reg.issue_challenge(&name("alice"), n(10)), Ok(()));
    assert_eq!(reg.status(&name("alice")), Some(Status::Challenged));

    let s = prover.answer_challenge(&n(10)).unwrap();
    assert_eq!(s.to_u64(), Some(437));
    assert_eq!(params.commit(&s).to_u64(), Some(2944));

    assert_eq!(reg.verify(&params, &name("alice"), &s), Ok(()));
    assert_eq!(reg.status(&name("alice")), Some(Status::Verified));
}

#[test]
fn completeness_with_random_nonce_and_challenge() {
    let params = small_group();
    let mut reg = Registry::new();
    for secret in [1u64, 2, 42, 1000, 53237, 99999999] {
        let user = format!("user{}", secret);
        let mut prover = Prover::new(small_group());
        let (y1, y2) = prover.register(user.clone(), n(secret));
        assert_eq!(reg.register(user.clone(), y1, y2), Ok(()));
        let c = reg.create_challenge(&params, &user).unwrap();
        let s = prover.answer_challenge(&c).unwrap();
        assert_eq!(reg.verify(&params, &user, &s), Ok(()));
        prover.finish(true);
        assert_eq!(prover.state(), ProverState::Authenticated);
    }
}

#[test]
fn soundness_wrong_secrets_small_group() {
    let params = small_group();
    let mut reg = Registry::new();
    let mut honest = Prover::new(small_group());
    let (y1, y2) = honest.register_with_nonce(name("bob"), n(42), n(17));
    reg.register(name("bob"), y1, y2).unwrap();
    for d in 1u64..200 {
        let mut forger = Prover::new(small_group());
        forger.register_with_nonce(name("bob"), n(42 + d), n(17));
        reg.issue_challenge(&name("bob"), n(10)).unwrap();
        let s = forger.answer_challenge(&n(10)).unwrap();
        assert_eq!(reg.verify(&params, &name("bob"), &s), Err(AuthError::InvalidProof));
        assert_eq!(reg.status(&name("bob")), Some(Status::Failed));
    }
}

#[test]
fn soundness_random_wrong_secrets_large_group() {
    let params = large_group();
    let mut reg = Registry::new();
    let secret = big("123456789012345678901234567890");
    let mut honest = Prover::new(large_group());
    let (y1, y2) = honest.register(name("carol"), secret.copy());
    reg.register(name("carol"), y1, y2).unwrap();
    for _ in 0..50 {
        let wrong = params.random_scalar();
        if wrong.same_value(&secret) {
            continue;
        }
        let mut forger = Prover::new(large_group());
        forger.register(name("carol"), wrong);
        let c = reg.create_challenge(&params, &name("carol")).unwrap();
        let s = forger.answer_challenge(&c).unwrap();
        assert_eq!(reg.verify(&params, &name("carol"), &s), Err(AuthError::InvalidProof));
    }
}

#[test]
fn challenge_is_single_use_after_success() {
    let params = small_group();
    let mut prover = Prover::new(small_group());
    let (y1, y2) = prover.register_with_nonce(name("alice"), n(42), n(17));
    let mut reg = Registry::new();
    reg.register(name("alice"), y1, y2).unwrap();
    reg.issue_challenge(&name("alice"), n(10)).unwrap();
    let s = prover.answer_challenge(&n(10)).unwrap();
    assert_eq!(reg.verify(&params, &name("alice"), &s), Ok(()));
    assert_eq!(reg.verify(&params, &name("alice"), &s), Err(AuthError::ProtocolViolation));
}

#[test]
fn challenge_is_single_use_after_failure() {
    let params = small_group();
    let mut prover = Prover::new(small_group());
    let (y1, y2) = prover.register_with_nonce(name("alice"), n(42), n(17));
    let mut reg = Registry::new();
    reg.register(name("alice"), y1, y2).unwrap();
    reg.issue_challenge(&name("alice"), n(10)).unwrap();
    assert_eq!(reg.verify(&params, &name("alice"), &n(5)), Err(AuthError::InvalidProof));
    let s = prover.answer_challenge(&n(10)).unwrap();
    assert_eq!(reg.verify(&params, &name("alice"), &s), Err(AuthError::ProtocolViolation));
}

#[test]
fn only_latest_challenge_counts() {
    let params = small_group();
    let mut prover = Prover::new(small_group());
    let (y1, y2) = prover.register_with_nonce(name("alice"), n(42), n(17));
    let mut reg = Registry::new();
    reg.register(name("alice"), y1, y2).unwrap();
    reg.issue_challenge(&name("alice"), n(10)).unwrap();
    reg.issue_challenge(&name("alice"), n(11)).unwrap();
    let stale = prover.answer_challenge(&n(10)).unwrap();
    assert_eq!(reg.verify(&params, &name("alice"), &stale), Err(AuthError::InvalidProof));

    reg.issue_challenge(&name("alice"), n(10)).unwrap();
    reg.issue_challenge(&name("alice"), n(11)).unwrap();
    let fresh = prover.answer_challenge(&n(11)).unwrap();
    assert_eq!(reg.verify(&params, &name("alice"), &fresh), Ok(()));
}

#[test]
fn no_truncation_large_values() {
    let params = large_group();
    let secret = big("98765432109876543210987654321");
    assert_eq!(secret.to_u64(), None);
    let mut prover = Prover::new(large_group());
    let (y1, y2) = prover.register(name("dave"), secret);
    assert_eq!(y1.to_u64(), None);
    let mut reg = Registry::new();
    reg.register(name("dave"), y1, y2).unwrap();
    let c = reg.create_challenge(&params, &name("dave")).unwrap();
    let s = prover.answer_challenge(&c).unwrap();
    assert!(to_big(&s) > BigUint::from(u64::MAX));
    assert_eq!(reg.verify(&params, &name("dave"), &s), Ok(()));
}

#[test]
fn duplicate_registration_is_refused() {
    let mut reg = Registry::new();
    assert_eq!(reg.register(name("alice"), n(1), n(2)), Ok(()));
    assert_eq!(reg.register(name("alice"), n(3), n(4)), Err(AuthError::DuplicateUser));
    assert_eq!(reg.register(name("bob"), n(3), n(4)), Ok(()));
}

#[test]
fn unknown_user_is_reported() {
    let params = small_group();
    let mut reg = Registry::new();
    assert!(!reg.contains(&name("zed")));
    assert_eq!(reg.status(&name("zed")), None);
    assert_eq!(reg.create_challenge(&params, &name("zed")).err(), Some(AuthError::UserNotFound));
    assert_eq!(reg.issue_challenge(&name("zed"), n(3)), Err(AuthError::UserNotFound));
    assert_eq!(reg.verify(&params, &name("zed"), &n(3)), Err(AuthError::UserNotFound));
}

#[test]
fn verify_without_challenge_is_protocol_violation() {
    let params = small_group();
    let mut reg = Registry::new();
    reg.register(name("alice"), n(1), n(2)).unwrap();
    assert_eq!(reg.verify(&params, &name("alice"), &n(3)), Err(AuthError::ProtocolViolation));
    assert_eq!(reg.status(&name("alice")), Some(Status::Registered));
}

#[test]
fn take_then_record_outcome() {
    let params = small_group();
    let mut prover = Prover::new(small_group());
    let (y1, y2) = prover.register_with_nonce(name("alice"), n(42), n(17));
    let mut reg = Registry::new();
    reg.register(name("alice"), y1, y2).unwrap();
    reg.issue_challenge(&name("alice"), n(10)).unwrap();
    let pending = reg.take_challenge(&name("alice")).unwrap();
    assert_eq!(pending.challenge.to_u64(), Some(10));
    assert_eq!(pending.y1.to_u64(), Some(32711));
    assert_eq!(pending.y2.to_u64(), Some(24594));
    assert_eq!(reg.take_challenge(&name("alice")).err(), Some(AuthError::ProtocolViolation));
    let s = prover.answer_challenge(&n(10)).unwrap();
    let ok = params.accepts(&pending.y1, &pending.y2, &pending.challenge, &s);
    assert!(ok);
    reg.record_outcome(&name("alice"), ok);
    assert_eq!(reg.status(&name("alice")), Some(Status::Verified));
}

#[test]
fn outcome_does_not_override_new_challenge() {
    let mut reg = Registry::new();
    reg.register(name("alice"), n(1), n(2)).unwrap();
    reg.issue_challenge(&name("alice"), n(10)).unwrap();
    reg.take_challenge(&name("alice")).unwrap();
    reg.issue_challenge(&name("alice"), n(11)).unwrap();
    reg.record_outcome(&name("alice"), true);
    assert_eq!(reg.status(&name("alice")), Some(Status::Challenged));
}

#[test]
fn prover_answer_before_registration_fails() {
    let mut prover = Prover::new(small_group());
    assert_eq!(prover.state(), ProverState::Idle);
    assert_eq!(prover.answer_challenge(&n(10)).err(), Some(AuthError::ProtocolViolation));
    prover.register_with_nonce(name("alice"), n(42), n(17));
    prover.answer_challenge(&n(10)).unwrap();
    prover.finish(false);
    assert_eq!(prover.state(), ProverState::Failed);
    assert_eq!(prover.answer_challenge(&n(10)).err(), Some(AuthError::ProtocolViolation));
    assert_eq!(prover.username(), "alice");
}

#[test]
fn prover_reregistration_replaces_nonce() {
    let mut prover = Prover::new(small_group());
    prover.register_with_nonce(name("alice"), n(42), n(17));
    prover.register_with_nonce(name("alice"), n(42), n(18));
    assert_eq!(prover.answer_challenge(&n(10)).unwrap().to_u64(), Some(438));
}

#[test]
fn random_scalar_in_range() {
    let params = small_group();
    for _ in 0..200 {
        let k = params.random_scalar().to_u64().unwrap();
        assert!(1 <= k && k < 53238);
    }
    let tiny = Params::new(n(3), n(2)).unwrap();
    for _ in 0..20 {
        assert_eq!(tiny.random_scalar().to_u64(), Some(1));
    }
}

#[test]
fn scalar_from_words_exact_values() {
    let params = small_group();
    assert_eq!(params.scalar_from_words(vec![]).to_u64(), Some(1));
    assert_eq!(params.scalar_from_words(vec![100000]).to_u64(), Some(46764));
    assert_eq!(params.scalar_from_words(vec![53236]).to_u64(), Some(53237));
    assert_eq!(params.scalar_from_words(vec![53237]).to_u64(), Some(1));
    assert_eq!(params.scalar_from_words(vec![0, 1]).to_u64(), Some(19085));
}

#[test]
fn new_prover_holds_nothing() {
    let mut prover = Prover::new(small_group());
    assert_eq!(prover.state(), ProverState::Idle);
    assert_eq!(prover.username(), "");
    assert_eq!(prover.answer_challenge(&n(10)).err(), Some(AuthError::ProtocolViolation));
}

#[test]
fn params_validation() {
    assert!(Params::new(n(2), n(1)).is_none());
    assert!(Params::new(n(1), n(0)).is_none());
    assert!(Params::new(n(7), n(7)).is_none());
    assert!(Params::new(n(7), n(9)).is_none());
    assert!(Params::new(n(7), n(1)).is_none());
    assert!(Params::new(n(7), n(0)).is_none());
    assert!(Params::new(n(7), n(6)).is_some());
    let p = Params::new(n(7), n(3)).unwrap();
    assert_eq!(p.modulus().to_u64(), Some(7));
    assert_eq!(p.generator().to_u64(), Some(3));
    let d = Params::service_default();
    assert_eq!(d.modulus().to_u64(), Some(53239));
    assert_eq!(d.generator().to_u64(), Some(2));
}

#[test]
fn arithmetic_exact_values() {
    let a = big("18446744073709551616"); // 2^64
    let b = n(u64::MAX);
    assert_eq!(to_big(&a.add(&b)), BigUint::parse_bytes(b"36893488147419103231", 10).unwrap());
    assert_eq!(to_big(&a.mul(&b)), BigUint::parse_bytes(b"340282366920938463444927863358058659840", 10).unwrap());
    assert_eq!(a.sub(&b).to_u64(), Some(1));
    assert_eq!(a.rem(&n(1000)).to_u64(), Some(616));
    assert_eq!(n(2).mod_pow(&n(10), &n(1000)).to_u64(), Some(24));
    assert_eq!(n(3).mod_pow(&n(0), &n(7)).to_u64(), Some(1));
    assert!(b.less_than(&a));
    assert!(!a.less_than(&b));
    assert!(a.same_value(&b.add(&n(1))));
    assert!(!a.same_value(&b));
    assert_eq!(a.to_u64(), None);
    assert_eq!(b.to_u64(), Some(u64::MAX));
    assert_eq!(n(0).to_u64(), Some(0));
    assert_eq!(n(4294967296).copy().into_digits(), vec![0, 1]);
    assert_eq!(Nat::from_digits(vec![5, 0, 0]).to_u64(), Some(5));
    assert_eq!(Nat::from_digits(vec![0, 0, 1]).to_u64(), None);
    assert_eq!(Nat::from_digits(vec![7, 9, 0, 0]).to_u64(), Some(7 + 9 * 4294967296));
    assert_eq!(Nat::from_digits(vec![]).to_u64(), Some(0));
}

#[test]
fn verification_equation_values() {
    let params = small_group();
    assert!(params.accepts(&n(32711), &n(24594), &n(10), &n(437)));
    assert!(!params.accepts(&n(32711), &n(24594), &n(10), &n(438)));
    assert!(!params.accepts(&n(32711), &n(24594), &n(11), &n(437)));
    assert_eq!(params.commit(&n(42)).to_u64(), Some(32711));
}

#[test]
fn session_claims_expiry() {
    let c = Claims::for_subject(name("alice"), 1_700_000_000).unwrap();
    assert_eq!(c.sub, "alice");
    assert_eq!(c.company, "CHOAM");
    assert_eq!(c.exp, 1_700_000_000 + 86_400);
    assert_eq!(SESSION_SECONDS, 86_400);
    assert_eq!(Claims::for_subject(name("x"), -86_400).unwrap().exp, 0);
    assert_eq!(Claims::for_subject(name("x"), -86_401).err(), Some(AuthError::CredentialIssuanceError));
    assert_eq!(Claims::for_subject(name("x"), i64::MIN).err(), Some(AuthError::CredentialIssuanceError));
    let now = Claims::issue_now(name("bob")).unwrap();
    assert_eq!(now.sub, "bob");
    assert_eq!(now.company, "CHOAM");
    assert!(now.exp > 1_700_000_000);
}
