use vstd::prelude::*;
use crate::text::str_eq;

verus! {

/// The opaque principal handed out after a successful credential check. It
/// carries no attributes beyond "authenticated": the bridge is configured with
/// exactly one identity, not a user directory.
pub struct User {}

/// Why an authentication attempt was rejected. Username and secret mismatches
/// are distinguished so the protocol layer can choose its response, though
/// neither should be disclosed to the remote peer.
#[derive(Debug, Clone, Copy, PartialEq, Eq, Structural)]
pub enum AuthError {
    BadUser,
    BadPassword,
}

/// Credentials presented by a connecting client. The password may be absent;
/// an absent password skips the secret check entirely.
pub struct Credentials {
    pub password: Option<String>,
}

/// Verifies a presented identity/secret pair against the single configured
/// credential pair.
#[derive(Debug)]
pub struct UsernamePasswordAuthenticator {
    pub username: String,
    pub password: String,
}

impl UsernamePasswordAuthenticator {
    /// Does the presented secret conflict with the configured one? An absent
    /// secret never conflicts.
    pub open spec fn password_mismatch(&self, creds: &Credentials) -> bool {
        match creds.password {
            Some(p) => p@ != self.password@,
            None => false,
        }
    }

    pub fn new(username: String, password: String) -> (r: Self)
        ensures
            r.username@ == username@,
            r.password@ == password@,
    {
        UsernamePasswordAuthenticator { username, password }
    }

    /// The username is checked first: a wrong username reports `BadUser` even
    /// when the presented secret also conflicts. A conflicting secret under
    /// the right username reports `BadPassword`. An absent secret is accepted
    /// whenever the username matches — a known hardening opportunity of the
    /// single shared credential, left as the design has it.
    pub fn authenticate(&self, username: &str, creds: &Credentials) -> (r: Result<
        User,
        AuthError,
    >)
        ensures
            username@ != self.username@ ==> r == Err::<User, AuthError>(AuthError::BadUser),
            (username@ == self.username@ && self.password_mismatch(creds)) ==> r == Err::<
                User,
                AuthError,
            >(AuthError::BadPassword),
            (username@ == self.username@ && !self.password_mismatch(creds)) ==> r is Ok,
    {
        if !str_eq(username, self.username.as_str()) {
            return Err(AuthError::BadUser);
        }
        if let Some(p) = &creds.password {
            if !(*p == self.password) {
                return Err(AuthError::BadPassword);
            }
        }
        Ok(User {  })
    }
}

} // verus!
