//! What the authentication gate tells the key manager about a caller.
//!
//! Authentication itself happens outside: whoever inspects the session hands
//! the key manager the caller's class. The key manager decides from the
//! class alone which operations go ahead.

use vstd::prelude::*;

verus! {

/// The class of the caller of one request, as authentication found it.
#[derive(Clone, Copy, Debug, PartialEq, Eq, Structural)]
pub enum CallerClass {
    /// Authenticated, and allowed to see the private key material of the
    /// requested identity.
    Privileged,
    /// Authenticated, but allowed to see public keys only.
    Unprivileged,
    /// Not authenticated.
    Denied,
}

impl CallerClass {
    /// Only a privileged caller is handed private key material.
    pub open spec fn may_read_private_spec(&self) -> bool {
        *self == CallerClass::Privileged
    }

    /// Every authenticated caller is handed signed public keys.
    pub open spec fn may_read_public_spec(&self) -> bool {
        *self != CallerClass::Denied
    }

    /// Whether the caller may be handed private key material.
    #[verifier::when_used_as_spec(may_read_private_spec)]
    pub fn may_read_private(&self) -> (allowed: bool)
        ensures
            allowed == self.may_read_private_spec(),
    {
        match self {
            CallerClass::Privileged => true,
            CallerClass::Unprivileged => false,
            CallerClass::Denied => false,
        }
    }

    /// Whether the caller may be handed signed public keys.
    #[verifier::when_used_as_spec(may_read_public_spec)]
    pub fn may_read_public(&self) -> (allowed: bool)
        ensures
            allowed == self.may_read_public_spec(),
    {
        match self {
            CallerClass::Privileged => true,
            CallerClass::Unprivileged => true,
            CallerClass::Denied => false,
        }
    }
}

} // verus!
