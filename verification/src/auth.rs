//! The token provider's decisions: what follows a credential load, and
//! which exchange outcomes yield a usable bearer token. The identity
//! provider itself is spoken to outside; this module is verified for every
//! answer it may give.

use vstd::prelude::*;
use crate::CoreError;

verus! {

/// The service-account key material the token exchange needs: the account's
/// identity, its private key, and the endpoint that issues tokens.
pub struct ServiceCredential {
    pub client_email: String,
    pub private_key: String,
    pub token_uri: String,
}

/// A bearer token and the instant it expires, when the provider names one
/// (seconds of some epoch agreed with the caller).
pub struct AccessToken {
    pub token: String,
    pub expires_at: Option<i64>,
}

/// A token usable at instant `now`: non-empty, and not past its expiry.
pub open spec fn token_usable(t: AccessToken, now: i64) -> bool {
    t.token@.len() > 0 && (t.expires_at matches Some(e) ==> e >= now)
}

impl AccessToken {
    /// The bearer string a request puts in its authorization header.
    pub fn token(&self) -> (r: &str)
        ensures
            r@ == self.token@,
    {
        self.token.as_str()
    }
}

/// What the token flow does next, once the credential load has ended.
pub enum TokenStep {
    /// The credential is loaded; exchange it for a token.
    Exchange(ServiceCredential),
    /// The flow is over with this error; nothing is exchanged.
    Failed(CoreError),
}

/// The step after loading the credential file: a missing or unparseable
/// credential ends the flow with the authentication error before any
/// exchange — no call to the identity provider or the store follows.
pub fn after_credential_load(cred: Option<ServiceCredential>) -> (r: TokenStep)
    ensures
        match cred {
            None => r == TokenStep::Failed(CoreError::Auth),
            Some(c) => r == TokenStep::Exchange(c),
        },
{
    match cred {
        None => TokenStep::Failed(CoreError::Auth),
        Some(c) => TokenStep::Exchange(c),
    }
}

/// The step after the exchange: a rejected exchange, an empty token string
/// and a token already past its expiry each fail with the authentication
/// error; any other token is issued exactly as the provider returned it.
pub fn issue_token(token: Option<String>, expires_at: Option<i64>, now: i64)
    -> (r: Result<AccessToken, CoreError>)
    ensures
        (r is Err) <==> (token is None || (token matches Some(s) && s@.len() == 0)
            || (expires_at matches Some(e) && e < now)),
        r matches Err(e) ==> e == CoreError::Auth,
        r matches Ok(t) ==> token matches Some(s) && t.token == s
            && t.expires_at == expires_at && token_usable(t, now),
{
    match token {
        None => Err(CoreError::Auth),
        Some(s) => {
            if s.as_str().is_empty() {
                return Err(CoreError::Auth);
            }
            match expires_at {
                Some(e) => {
                    if e < now {
                        Err(CoreError::Auth)
                    } else {
                        Ok(AccessToken { token: s, expires_at })
                    }
                },
                None => Ok(AccessToken { token: s, expires_at: None }),
            }
        },
    }
}

} // verus!
