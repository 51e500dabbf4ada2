//! Validators of bearer tokens.
use crate::clock::{read_unix, unix_seconds};
use crate::messages::Claims;
use vstd::prelude::*;

verus! {

/// How long the default validator's claims last, in seconds.
pub const DEFAULT_LEASE_SECS: usize = 3600;

/// Decides what the holder of a token may call itself.
pub trait TokenValidator: Send + Sync + 'static {
    /// The claims of a token, or `None` if the token is not valid.
    fn validate(&self, token: &str) -> Option<Claims>;
}

/// Knows one token.
pub struct DefaultValidator {
    pub token: String,
}

/// When claims that are made at `now` expire.
pub open spec fn lease_end(now: i64) -> usize {
    (now as usize).wrapping_add(DEFAULT_LEASE_SECS)
}

/// The claims that the default validator makes at `now`.
pub open spec fn default_claims(claims: Claims, now: i64) -> bool {
    claims.sub@ == "debug-client"@ && claims.exp == lease_end(now)
}

impl DefaultValidator {
    /// Validates a token when the clock stands at `now` seconds after 1970.
    pub fn validate_at(&self, token: &str, now: i64) -> (claims: Option<Claims>)
        ensures
            claims is Some <==> token@ == self.token@,
            claims is Some ==> default_claims(claims->0, now),
    {
        if token.to_owned() == self.token {
            Some(
                Claims {
                    sub: "debug-client".to_owned(),
                    exp: (now as usize).wrapping_add(DEFAULT_LEASE_SECS),
                },
            )
        } else {
            None
        }
    }
}

impl TokenValidator for DefaultValidator {
    fn validate(&self, token: &str) -> (claims: Option<Claims>)
        ensures
            claims is Some <==> token@ == self.token@,
            claims is Some ==> exists|now: i64| #[trigger]
                read_unix(now) && 0 <= now && default_claims(claims->0, now),
    {
        if token.to_owned() == self.token {
            let now = unix_seconds();
            self.validate_at(token, now)
        } else {
            None
        }
    }
}

/// Where there is no validator, no token is valid.
impl TokenValidator for Option<DefaultValidator> {
    fn validate(&self, token: &str) -> (claims: Option<Claims>)
        ensures
            claims is Some <==> self is Some && token@ == self->0.token@,
            claims is Some ==> exists|now: i64| #[trigger]
                read_unix(now) && 0 <= now && default_claims(claims->0, now),
    {
        match self {
            Some(validator) => validator.validate(token),
            None => None,
        }
    }
}

} // verus!
