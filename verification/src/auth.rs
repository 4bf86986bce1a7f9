//! Authentication decisions: which protocol step a profile's credentials call
//! for, and what each outcome of that step means. The driver performs the
//! protocol exchange; authentication is a single attempt per connect call,
//! never retried here.

use vstd::prelude::*;
use crate::errors::AuthError;
use crate::models::{AuthMethod, AuthMethodV, ServerConfig};
use crate::storage::nonempty_or_none;

verus! {

/// The single protocol step a profile's credentials call for.
pub enum AuthStep {
    UsePassword { username: String, password: String },
    UseKey { username: String, key: String, passphrase: Option<String> },
}

/// Mathematical view of an [`AuthStep`].
pub enum AuthStepV {
    UsePassword { username: Seq<char>, password: Seq<char> },
    UseKey { username: Seq<char>, key: Seq<char>, passphrase: Option<Seq<char>> },
}

impl View for AuthStep {
    type V = AuthStepV;

    open spec fn view(&self) -> AuthStepV {
        match self {
            AuthStep::UsePassword { username, password } => AuthStepV::UsePassword {
                username: username@,
                password: password@,
            },
            AuthStep::UseKey { username, key, passphrase } => AuthStepV::UseKey {
                username: username@,
                key: key@,
                passphrase: passphrase.deep_view(),
            },
        }
    }
}

/// The step a profile calls for: its username with its password, or its key
/// material with its passphrase — an empty-string passphrase read as none.
pub open spec fn step_of(username: Seq<char>, auth: AuthMethodV) -> AuthStepV {
    match auth {
        AuthMethodV::Password(p) => AuthStepV::UsePassword { username, password: p },
        AuthMethodV::PrivateKey { key, passphrase } => AuthStepV::UseKey {
            username,
            key,
            passphrase: nonempty_or_none(passphrase),
        },
    }
}

/// Decide the authentication step for a profile.
pub fn auth_step(server: &ServerConfig) -> (r: AuthStep)
    ensures
        r@ == step_of(server@.username, server@.auth),
{
    match &server.auth {
        AuthMethod::Password(password) => AuthStep::UsePassword {
            username: server.username.clone(),
            password: password.clone(),
        },
        AuthMethod::PrivateKey { key, passphrase } => {
            let pp = match passphrase {
                Some(p) => if p.as_str().is_empty() {
                    None
                } else {
                    Some(p.clone())
                },
                None => None,
            };
            AuthStep::UseKey { username: server.username.clone(), key: key.clone(), passphrase: pp }
        },
    }
}

/// Read the server's answer to a password submission: a negative answer —
/// rejected, not merely absent — is `Rejected`.
pub fn password_outcome(accepted: bool) -> (r: Result<(), AuthError>)
    ensures
        r == if accepted {
            Ok::<(), AuthError>(())
        } else {
            Err::<(), AuthError>(AuthError::Rejected)
        },
{
    if accepted {
        Ok(())
    } else {
        Err(AuthError::Rejected)
    }
}

/// Read the outcome of the key path: key material that would not decode is
/// `BadKey`; a structurally valid key the server refused is `Rejected`,
/// distinct from it.
pub fn key_outcome(decoded: bool, accepted: bool) -> (r: Result<(), AuthError>)
    ensures
        r == if !decoded {
            Err::<(), AuthError>(AuthError::BadKey)
        } else if !accepted {
            Err::<(), AuthError>(AuthError::Rejected)
        } else {
            Ok::<(), AuthError>(())
        },
{
    if !decoded {
        Err(AuthError::BadKey)
    } else if !accepted {
        Err(AuthError::Rejected)
    } else {
        Ok(())
    }
}

} // verus!
