//! Access control: a caller-supplied credential checked against the
//! configured secret.
use vstd::prelude::*;

verus! {

/// Why a caller was refused.
#[derive(Debug, Clone, Copy, PartialEq, Eq, Structural)]
pub enum AccessError {
    /// A secret is configured and the caller supplied none.
    MissingPassword,
    /// The supplied credential differs from the configured secret.
    InvalidPassword,
}

/// Access control is off when no secret, or an empty one, is configured.
pub open spec fn auth_disabled(secret: Option<Seq<char>>) -> bool {
    match secret {
        None => true,
        Some(s) => s.len() == 0,
    }
}

/// The answer to `supplied` under `secret`.
pub open spec fn access_outcome(secret: Option<Seq<char>>, supplied: Option<Seq<char>>) -> Result<
    (),
    AccessError,
> {
    if auth_disabled(secret) {
        Ok(())
    } else {
        match supplied {
            None => Err(AccessError::MissingPassword),
            Some(p) => if p == secret.unwrap() {
                Ok(())
            } else {
                Err(AccessError::InvalidPassword)
            },
        }
    }
}

/// The view of an optional string.
pub open spec fn opt_view(o: Option<String>) -> Option<Seq<char>> {
    match o {
        None => None,
        Some(s) => Some(s@),
    }
}

/// With no secret configured, or an empty one, every caller is admitted,
/// with or without a credential.
pub proof fn lemma_no_secret_admits_all(secret: Option<Seq<char>>, supplied: Option<Seq<char>>)
    requires
        auth_disabled(secret),
    ensures
        access_outcome(secret, supplied) is Ok,
{
}

/// With a non-empty secret `s` configured, a caller without a credential is
/// refused, one with exactly `s` is admitted, and one with any other is refused.
pub proof fn lemma_secret_is_checked(s: Seq<char>, t: Seq<char>)
    requires
        s.len() > 0,
    ensures
        access_outcome(Some(s), None) is Err,
        access_outcome(Some(s), Some(s)) is Ok,
        t != s ==> access_outcome(Some(s), Some(t)) is Err,
{
}

/// Checks `supplied` against the configured `secret`; no side effects.
pub fn check_access(secret: &Option<String>, supplied: &Option<String>) -> (r: Result<(), AccessError>)
    ensures
        r == access_outcome(opt_view(*secret), opt_view(*supplied)),
{
    match secret {
        None => Ok(()),
        Some(s) => {
            if s.as_str().is_empty() {
                return Ok(());
            }
            match supplied {
                None => Err(AccessError::MissingPassword),
                Some(p) => if *p == *s {
                    Ok(())
                } else {
                    Err(AccessError::InvalidPassword)
                },
            }
        },
    }
}

} // verus!
