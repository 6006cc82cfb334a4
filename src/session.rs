//! The claims of a session credential, handed to a token issuer after a
//! successful verification.
use crate::registry::AuthError;
use vstd::prelude::*;

verus! {

/// How long a session credential stays valid, in seconds (24 hours).
pub const SESSION_SECONDS: i64 = 86400;

/// Expiry of a session issued at `issued_at`, when it is a valid `usize` time.
pub open spec fn session_expiry(issued_at: i64) -> Option<nat> {
    let e = issued_at + SESSION_SECONDS;
    if 0 <= e <= usize::MAX {
        Some(e as nat)
    } else {
        None
    }
}

/// The claims carried by a session token.
pub struct Claims {
    /// Subject: the authenticated username.
    pub sub: String,
    pub company: String,
    /// Expiry, in seconds since the Unix epoch.
    pub exp: usize,
}

impl Claims {
    /// Claims for `subject`, issued at `issued_at` (seconds since the Unix epoch),
    /// expiring one session length later. `CredentialIssuanceError` when that
    /// expiry is not a valid time.
    pub fn for_subject(subject: String, issued_at: i64) -> (r: Result<Claims, AuthError>)
        ensures
            r is Ok <==> session_expiry(issued_at) is Some,
            r matches Err(e) ==> e == AuthError::CredentialIssuanceError,
            r matches Ok(c) ==> c.sub@ == subject@ && Some(c.exp as nat) == session_expiry(issued_at)
                && c.company@ == seq!['C', 'H', 'O', 'A', 'M'],
    {
        let e: i128 = issued_at as i128 + SESSION_SECONDS as i128;
        if e < 0 || e > usize::MAX as i128 {
            return Err(AuthError::CredentialIssuanceError);
        }
        let company = String::from_str("CHOAM");
        proof {
            reveal_strlit("CHOAM");
        }
        Ok(Claims { sub: subject, company, exp: e as usize })
    }

    /// Claims for `subject`, issued now: as `for_subject` at the current time.
    pub fn issue_now(subject: String) -> (r: Result<Claims, AuthError>)
        ensures
            r matches Err(e) ==> e == AuthError::CredentialIssuanceError,
            r matches Ok(c) ==> c.sub@ == subject@ && c.company@ == seq!['C', 'H', 'O', 'A', 'M']
                && exists|t: i64| Some(c.exp as nat) == #[trigger] session_expiry(t),
    {
        Claims::for_subject(subject, now_seconds())
    }
}

/// Relies on `chrono::Utc::now().timestamp()`: the current time, in seconds since
/// the Unix epoch; any value may come back.
#[verifier::external_body]
fn now_seconds() -> (r: i64) {
    chrono::Utc::now().timestamp()
}

} // verus!
