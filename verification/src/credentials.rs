use vstd::prelude::*;

use crate::config::Config;
use crate::error::Error;

verus! {

/// The two values every API call must carry: the numeric account id and
/// the personal access token. The token is a secret: the library never
/// prints it.
#[derive(Debug)]
pub struct HarvestCredentials {
    pub account_id: u32,
    pub token: String,
}

impl HarvestCredentials {
    /// Extracts the credentials from resolved settings. Fails with
    /// `MissingCredential` exactly when the account id or the token is
    /// absent.
    pub fn from_cfg(config: &Config) -> (r: Result<HarvestCredentials, Error>)
        ensures
            match r {
                Ok(c) => config.harvest_account_id is Some && config.harvest_token is Some
                    && c.account_id == config.harvest_account_id->0 && c.token
                    == config.harvest_token->0,
                Err(e) => e == Error::MissingCredential && (config.harvest_account_id is None
                    || config.harvest_token is None),
            },
    {
        match (&config.harvest_account_id, &config.harvest_token) {
            (Some(account_id), Some(token)) => Ok(
                HarvestCredentials { account_id: *account_id, token: token.clone() },
            ),
            _ => Err(Error::MissingCredential),
        }
    }
}

} // verus!
