//! The prover's side of the protocol: commitments at registration, and the
//! answer to a challenge.
use crate::bignum::Nat;
use crate::group::{commitment, response, GroupModel, Params};
use crate::registry::AuthError;
use vstd::prelude::*;

verus! {

/// Where a prover stands in one authentication attempt.
#[derive(PartialEq, Eq, Structural, Clone, Copy, Debug)]
pub enum ProverState {
    Idle,
    Registered,
    Challenged,
    Authenticated,
    Failed,
}

/// Mathematical view of a prover.
pub struct ProverModel {
    pub group: GroupModel,
    pub username: Seq<char>,
    pub state: ProverState,
    pub secret: nat,
    pub nonce: nat,
}

/// A prover holding its secret and the nonce of the current attempt. Neither is
/// ever handed out.
pub struct Prover {
    params: Params,
    username: String,
    secret: Nat,
    nonce: Nat,
    state: ProverState,
}

impl View for Prover {
    type V = ProverModel;

    closed spec fn view(&self) -> ProverModel {
        ProverModel {
            group: self.params@,
            username: self.username@,
            state: self.state,
            secret: self.secret@,
            nonce: self.nonce@,
        }
    }
}

impl Prover {
    /// A prover over `params` that has not registered yet.
    pub fn new(params: Params) -> (r: Prover)
        ensures
            r@.group == params@,
            r@.state == ProverState::Idle,
            r@.username == Seq::<char>::empty(),
            r@.secret == 0,
            r@.nonce == 0,
    {
        Prover {
            params,
            username: String::new(),
            secret: Nat::from_u64(0),
            nonce: Nat::from_u64(0),
            state: ProverState::Idle,
        }
    }

    /// Registers `username` with `secret` and the given nonce; returns the
    /// commitments `(g^secret mod p, g^nonce mod p)`.
    pub fn register_with_nonce(&mut self, username: String, secret: Nat, nonce: Nat) -> (r: (Nat, Nat))
        ensures
            r.0@ == commitment(old(self)@.group, secret@),
            r.1@ == commitment(old(self)@.group, nonce@),
            final(self)@ == (ProverModel {
                group: old(self)@.group,
                username: username@,
                state: ProverState::Registered,
                secret: secret@,
                nonce: nonce@,
            }),
    {
        let y1 = self.params.commit(&secret);
        let y2 = self.params.commit(&nonce);
        self.username = username;
        self.secret = secret;
        self.nonce = nonce;
        self.state = ProverState::Registered;
        (y1, y2)
    }

    /// Registers `username` with `secret` under a freshly drawn nonce in
    /// `[1, p - 1)`, replacing any earlier one; returns the commitments.
    pub fn register(&mut self, username: String, secret: Nat) -> (r: (Nat, Nat))
        ensures
            1 <= final(self)@.nonce < old(self)@.group.modulus - 1,
            r.0@ == commitment(old(self)@.group, secret@),
            r.1@ == commitment(old(self)@.group, final(self)@.nonce),
            final(self)@ == (ProverModel {
                group: old(self)@.group,
                username: username@,
                state: ProverState::Registered,
                secret: secret@,
                nonce: final(self)@.nonce,
            }),
    {
        let nonce = self.params.random_scalar();
        self.register_with_nonce(username, secret, nonce)
    }

    /// Answers challenge `c` with `nonce + c * secret`, unreduced. Refused with
    /// `ProtocolViolation` before registration or after the attempt has ended.
    pub fn answer_challenge(&mut self, c: &Nat) -> (r: Result<Nat, AuthError>)
        ensures
            r is Err <==> !(old(self)@.state == ProverState::Registered || old(self)@.state == ProverState::Challenged),
            r matches Err(e) ==> e == AuthError::ProtocolViolation && final(self)@ == old(self)@,
            r matches Ok(s) ==> s@ == response(old(self)@.nonce, c@, old(self)@.secret)
                && final(self)@ == (ProverModel { state: ProverState::Challenged, ..old(self)@ }),
    {
        match self.state {
            ProverState::Registered | ProverState::Challenged => {
                let s = self.nonce.add(&c.mul(&self.secret));
                self.state = ProverState::Challenged;
                Ok(s)
            },
            _ => Err(AuthError::ProtocolViolation),
        }
    }

    /// Closes the attempt once the verifier has answered: `Authenticated` or
    /// `Failed`. Only an attempt that has answered a challenge can close.
    pub fn finish(&mut self, accepted: bool)
        ensures
            old(self)@.state == ProverState::Challenged ==> final(self)@ == (ProverModel {
                state: if accepted { ProverState::Authenticated } else { ProverState::Failed },
                ..old(self)@
            }),
            old(self)@.state != ProverState::Challenged ==> final(self)@ == old(self)@,
    {
        if self.state == ProverState::Challenged {
            self.state = if accepted {
                ProverState::Authenticated
            } else {
                ProverState::Failed
            };
        }
    }

    /// Where this prover stands.
    pub fn state(&self) -> (r: ProverState)
        ensures
            r == self@.state,
    {
        self.state
    }

    /// The username registered last.
    pub fn username(&self) -> (r: String)
        ensures
            r@ == self@.username,
    {
        self.username.clone()
    }
}

} // verus!
