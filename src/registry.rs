//! The verifier's per-user protocol state: register, challenge, verify.
//!
//! Every transition replaces a user's whole record, so a step either lands
//! completely or leaves the prior record standing.
use crate::bignum::Nat;
use crate::group::{proof_accepts, GroupModel, Params};
use vstd::prelude::*;

verus! {

/// Where a user stands in the protocol.
#[derive(PartialEq, Eq, Structural, Clone, Copy, Debug)]
pub enum Status {
    Registered,
    Challenged,
    Verified,
    Failed,
}

/// Why a protocol operation was refused.
#[derive(PartialEq, Eq, Structural, Clone, Copy, Debug)]
pub enum AuthError {
    DuplicateUser,
    UserNotFound,
    ProtocolViolation,
    InvalidProof,
    CredentialIssuanceError,
}

/// Mathematical view of one user's record.
pub struct RecordModel {
    pub y1: nat,
    pub y2: nat,
    pub pending: Option<nat>,
    pub status: Status,
}

/// Result of registering `name` into `m`.
pub open spec fn register_result(m: Map<Seq<char>, RecordModel>, name: Seq<char>) -> Result<(), AuthError> {
    if m.contains_key(name) {
        Err(AuthError::DuplicateUser)
    } else {
        Ok(())
    }
}

/// Registry after registering `name` with commitments `(y1, y2)`.
pub open spec fn after_register(
    m: Map<Seq<char>, RecordModel>,
    name: Seq<char>,
    y1: nat,
    y2: nat,
) -> Map<Seq<char>, RecordModel> {
    if m.contains_key(name) {
        m
    } else {
        m.insert(name, RecordModel { y1, y2, pending: None, status: Status::Registered })
    }
}

/// Registry after issuing challenge `c` to `name`: any earlier pending challenge is replaced.
pub open spec fn after_challenge(
    m: Map<Seq<char>, RecordModel>,
    name: Seq<char>,
    c: nat,
) -> Map<Seq<char>, RecordModel> {
    if m.contains_key(name) {
        m.insert(name, RecordModel { pending: Some(c), status: Status::Challenged, ..m[name] })
    } else {
        m
    }
}

/// Result of consuming the pending challenge of `name`.
pub open spec fn take_result(m: Map<Seq<char>, RecordModel>, name: Seq<char>) -> Result<nat, AuthError> {
    if !m.contains_key(name) {
        Err(AuthError::UserNotFound)
    } else {
        match m[name].pending {
            Some(c) => Ok(c),
            None => Err(AuthError::ProtocolViolation),
        }
    }
}

/// Registry after the pending challenge of `name` is consumed.
pub open spec fn after_take(m: Map<Seq<char>, RecordModel>, name: Seq<char>) -> Map<Seq<char>, RecordModel> {
    if m.contains_key(name) {
        m.insert(name, RecordModel { pending: None, ..m[name] })
    } else {
        m
    }
}

/// Registry after the outcome of a checked answer is recorded. A challenge issued in
/// the meantime is left alone.
pub open spec fn after_outcome(
    m: Map<Seq<char>, RecordModel>,
    name: Seq<char>,
    accepted: bool,
) -> Map<Seq<char>, RecordModel> {
    if m.contains_key(name) && m[name].pending is None {
        m.insert(
            name,
            RecordModel {
                status: if accepted { Status::Verified } else { Status::Failed },
                ..m[name]
            },
        )
    } else {
        m
    }
}

/// Result of verifying the answer `s` of `name`.
pub open spec fn verify_result(
    g: GroupModel,
    m: Map<Seq<char>, RecordModel>,
    name: Seq<char>,
    s: nat,
) -> Result<(), AuthError> {
    match take_result(m, name) {
        Err(e) => Err(e),
        Ok(c) => if proof_accepts(g, m[name].y1, m[name].y2, c, s) {
            Ok(())
        } else {
            Err(AuthError::InvalidProof)
        },
    }
}

/// Registry after verifying the answer `s` of `name`: the pending challenge is spent
/// whatever the outcome.
pub open spec fn after_verify(
    g: GroupModel,
    m: Map<Seq<char>, RecordModel>,
    name: Seq<char>,
    s: nat,
) -> Map<Seq<char>, RecordModel> {
    match take_result(m, name) {
        Err(_) => m,
        Ok(c) => after_outcome(
            after_take(m, name),
            name,
            proof_accepts(g, m[name].y1, m[name].y2, c, s),
        ),
    }
}

/// One user's record, held by the registry.
pub struct ProverRecord {
    username: String,
    y1: Nat,
    y2: Nat,
    pending: Option<Nat>,
    status: Status,
}

impl ProverRecord {
    pub closed spec fn name(&self) -> Seq<char> {
        self.username@
    }

    pub closed spec fn model(&self) -> RecordModel {
        RecordModel {
            y1: self.y1@,
            y2: self.y2@,
            pending: match self.pending {
                Some(c) => Some(c@),
                None => None,
            },
            status: self.status,
        }
    }
}

/// What a verifier needs to check one answer: the user's commitments and the
/// challenge that was just consumed.
pub struct PendingProof {
    pub y1: Nat,
    pub y2: Nat,
    pub challenge: Nat,
}

/// The verifier's table of users, keyed by username.
pub struct Registry {
    records: Vec<ProverRecord>,
}

impl View for Registry {
    type V = Map<Seq<char>, RecordModel>;

    closed spec fn view(&self) -> Map<Seq<char>, RecordModel> {
        Map::new(
            |n: Seq<char>| exists|i: int| 0 <= i < self.records@.len() && self.records@[i].name() == n,
            |n: Seq<char>|
                self.records@[choose|i: int| 0 <= i < self.records@.len() && self.records@[i].name() == n].model(),
        )
    }
}

impl Registry {
    /// Usernames are unique.
    pub closed spec fn wf(&self) -> bool {
        forall|i: int, j: int|
            0 <= i < self.records@.len() && 0 <= j < self.records@.len() && i != j
                ==> self.records@[i].name() != self.records@[j].name()
    }

    proof fn lemma_lookup(&self, i: int)
        requires
            self.wf(),
            0 <= i < self.records@.len(),
        ensures
            self@.contains_key(self.records@[i].name()),
            self@[self.records@[i].name()] == self.records@[i].model(),
    {
        let n = self.records@[i].name();
        assert(self@.dom().contains(n));
        let j = choose|j: int| 0 <= j < self.records@.len() && self.records@[j].name() == n;
        assert(j == i);
    }

    /// Writing one record, named `b.records[k].name()`, and keeping every record of
    /// another name at its index updates the view at that name alone.
    proof fn lemma_write(a: Registry, b: Registry, k: int)
        requires
            a.wf(),
            b.wf(),
            0 <= k < b.records@.len(),
            forall|j: int|
                0 <= j < a.records@.len() && a.records@[j].name() != b.records@[k].name()
                    ==> j < b.records@.len() && b.records@[j] == a.records@[j],
            forall|j: int|
                0 <= j < b.records@.len() && b.records@[j].name() != b.records@[k].name()
                    ==> j < a.records@.len() && b.records@[j] == a.records@[j],
        ensures
            b@ == a@.insert(b.records@[k].name(), b.records@[k].model()),
    {
        let n = b.records@[k].name();
        let m = b.records@[k].model();
        b.lemma_lookup(k);
        assert forall|key: Seq<char>| #[trigger] b@.contains_key(key) <==> a@.insert(n, m).contains_key(key) by {
            if a@.contains_key(key) && key != n {
                let j = choose|j: int| 0 <= j < a.records@.len() && a.records@[j].name() == key;
                assert(b.records@[j].name() == key);
            }
            if b@.contains_key(key) && key != n {
                let j = choose|j: int| 0 <= j < b.records@.len() && b.records@[j].name() == key;
                assert(a.records@[j].name() == key);
            }
        }
        assert forall|key: Seq<char>| #[trigger] b@.contains_key(key) && key != n implies b@[key] == a@[key] by {
            let j = choose|j: int| 0 <= j < b.records@.len() && b.records@[j].name() == key;
            b.lemma_lookup(j);
            a.lemma_lookup(j);
        }
        assert(b@ =~= a@.insert(n, m));
    }

    /// An empty registry.
    pub fn new() -> (r: Registry)
        ensures
            r.wf(),
            r@ == Map::<Seq<char>, RecordModel>::empty(),
    {
        let r = Registry { records: Vec::new() };
        assert(r@ =~= Map::<Seq<char>, RecordModel>::empty());
        r
    }

    fn find(&self, username: &String) -> (r: Option<usize>)
        requires
            self.wf(),
        ensures
            r matches Some(i) ==> i < self.records@.len() && self.records@[i as int].name() == username@
                && self@.contains_key(username@) && self@[username@] == self.records@[i as int].model(),
            r is None ==> !self@.contains_key(username@),
    {
        let mut i: usize = 0;
        while i < self.records.len()
            invariant
                self.wf(),
                i <= self.records@.len(),
                forall|j: int| 0 <= j < i ==> self.records@[j].name() != username@,
            decreases self.records@.len() - i,
        {
            if self.records[i].username == *username {
                proof {
                    self.lemma_lookup(i as int);
                }
                return Some(i);
            }
            i = i + 1;
        }
        None
    }

    /// Replaces the record at `i` by one with the same username.
    fn replace(&mut self, i: usize, rec: ProverRecord)
        requires
            old(self).wf(),
            i < old(self).records@.len(),
            rec.name() == old(self).records@[i as int].name(),
        ensures
            final(self).wf(),
            final(self)@ == old(self)@.insert(rec.name(), rec.model()),
    {
        self.records.set(i, rec);
        proof {
            Self::lemma_write(*old(self), *self, i as int);
        }
    }

    /// Adds a user with commitments `(y1, y2)`; a username already present is refused.
    pub fn register(&mut self, username: String, y1: Nat, y2: Nat) -> (r: Result<(), AuthError>)
        requires
            old(self).wf(),
        ensures
            final(self).wf(),
            r == register_result(old(self)@, username@),
            final(self)@ == after_register(old(self)@, username@, y1@, y2@),
    {
        match self.find(&username) {
            Some(_) => Err(AuthError::DuplicateUser),
            None => {
                let rec = ProverRecord { username, y1, y2, pending: None, status: Status::Registered };
                self.records.push(rec);
                proof {
                    assert(self.records@[old(self).records@.len() as int] == rec);
                    Self::lemma_write(*old(self), *self, old(self).records@.len() as int);
                }
                Ok(())
            },
        }
    }

    /// Whether `username` is registered.
    pub fn contains(&self, username: &String) -> (r: bool)
        requires
            self.wf(),
        ensures
            r == self@.contains_key(username@),
    {
        self.find(username).is_some()
    }

    /// Where `username` stands in the protocol, if registered.
    pub fn status(&self, username: &String) -> (r: Option<Status>)
        requires
            self.wf(),
        ensures
            r == (if self@.contains_key(username@) {
                Some(self@[username@].status)
            } else {
                None
            }),
    {
        match self.find(username) {
            Some(i) => Some(self.records[i].status),
            None => None,
        }
    }

    /// Records `c` as the one live challenge of `username`, replacing any earlier one.
    pub fn issue_challenge(&mut self, username: &String, c: Nat) -> (r: Result<(), AuthError>)
        requires
            old(self).wf(),
        ensures
            final(self).wf(),
            r is Err <==> !old(self)@.contains_key(username@),
            r matches Err(e) ==> e == AuthError::UserNotFound,
            final(self)@ == after_challenge(old(self)@, username@, c@),
    {
        match self.find(username) {
            None => Err(AuthError::UserNotFound),
            Some(i) => {
                let rec = ProverRecord {
                    username: self.records[i].username.clone(),
                    y1: self.records[i].y1.copy(),
                    y2: self.records[i].y2.copy(),
                    pending: Some(c),
                    status: Status::Challenged,
                };
                self.replace(i, rec);
                Ok(())
            },
        }
    }

    /// Draws a fresh random challenge for `username` and makes it the one live
    /// challenge of that user.
    pub fn create_challenge(&mut self, params: &Params, username: &String) -> (r: Result<Nat, AuthError>)
        requires
            old(self).wf(),
        ensures
            final(self).wf(),
            r is Err <==> !old(self)@.contains_key(username@),
            r matches Err(e) ==> e == AuthError::UserNotFound && final(self)@ == old(self)@,
            r matches Ok(c) ==> 1 <= c@ < params@.modulus - 1
                && final(self)@ == after_challenge(old(self)@, username@, c@),
    {
        if !self.contains(username) {
            return Err(AuthError::UserNotFound);
        }
        let c = params.random_scalar();
        let sent = c.copy();
        match self.issue_challenge(username, c) {
            Ok(()) => Ok(sent),
            Err(e) => Err(e),
        }
    }

    /// Consumes the pending challenge of `username` in one step and hands back
    /// what is needed to check the answer to it.
    pub fn take_challenge(&mut self, username: &String) -> (r: Result<PendingProof, AuthError>)
        requires
            old(self).wf(),
        ensures
            final(self).wf(),
            final(self)@ == after_take(old(self)@, username@),
            r matches Err(e) ==> take_result(old(self)@, username@) == Err::<nat, AuthError>(e),
            r matches Ok(p) ==> take_result(old(self)@, username@) == Ok::<nat, AuthError>(p.challenge@)
                && p.y1@ == old(self)@[username@].y1 && p.y2@ == old(self)@[username@].y2,
    {
        match self.find(username) {
            None => Err(AuthError::UserNotFound),
            Some(i) => {
                let status = self.records[i].status;
                match &self.records[i].pending {
                    None => {
                        proof {
                            assert(self@.insert(username@, RecordModel { pending: None, ..self@[username@] }) =~= self@);
                        }
                        Err(AuthError::ProtocolViolation)
                    },
                    Some(c) => {
                        let proof_parts = PendingProof {
                            y1: self.records[i].y1.copy(),
                            y2: self.records[i].y2.copy(),
                            challenge: c.copy(),
                        };
                        let rec = ProverRecord {
                            username: self.records[i].username.clone(),
                            y1: self.records[i].y1.copy(),
                            y2: self.records[i].y2.copy(),
                            pending: None,
                            status,
                        };
                        self.replace(i, rec);
                        Ok(proof_parts)
                    },
                }
            },
        }
    }

    /// Records whether the answer to a consumed challenge was accepted. Nothing
    /// changes when a new challenge has been issued meanwhile.
    pub fn record_outcome(&mut self, username: &String, accepted: bool)
        requires
            old(self).wf(),
        ensures
            final(self).wf(),
            final(self)@ == after_outcome(old(self)@, username@, accepted),
    {
        match self.find(username) {
            None => {},
            Some(i) => {
                if self.records[i].pending.is_none() {
                    let rec = ProverRecord {
                        username: self.records[i].username.clone(),
                        y1: self.records[i].y1.copy(),
                        y2: self.records[i].y2.copy(),
                        pending: None,
                        status: if accepted {
                            Status::Verified
                        } else {
                            Status::Failed
                        },
                    };
                    self.replace(i, rec);
                }
            },
        }
    }

    /// Verifies the answer `s` of `username` against its pending challenge, which is
    /// spent whatever the outcome.
    pub fn verify(&mut self, params: &Params, username: &String, s: &Nat) -> (r: Result<(), AuthError>)
        requires
            old(self).wf(),
        ensures
            final(self).wf(),
            r == verify_result(params@, old(self)@, username@, s@),
            final(self)@ == after_verify(params@, old(self)@, username@, s@),
    {
        let taken = self.take_challenge(username);
        match taken {
            Err(e) => Err(e),
            Ok(p) => {
                let accepted = params.accepts(&p.y1, &p.y2, &p.challenge, s);
                self.record_outcome(username, accepted);
                if accepted {
                    Ok(())
                } else {
                    Err(AuthError::InvalidProof)
                }
            },
        }
    }
}

} // verus!
