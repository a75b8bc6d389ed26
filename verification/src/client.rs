use vstd::prelude::*;

use crate::api::TimeEntriesQuery;
use crate::api::User;
use crate::config::Config;
use crate::credentials::HarvestCredentials;
use crate::dates::Date;
use crate::error::Error;

verus! {

/// The date bounds a run queries with.
#[derive(Clone, Copy, Debug)]
pub struct QueryOptions {
    pub from: Option<Date>,
    pub to: Option<Date>,
}

/// Everything the two API calls of a run need: the credentials, the user
/// whose entries are listed (absent until either settings or the
/// "who am I" call supply it), and the date bounds.
#[derive(Debug)]
pub struct HarvestClient {
    pub credentials: HarvestCredentials,
    pub user_id: Option<u32>,
    pub query: QueryOptions,
}

impl HarvestClient {
    /// Builds a client from resolved settings. Fails with
    /// `MissingCredential` exactly when the account id or the token is
    /// absent.
    pub fn new(config: &Config) -> (r: Result<HarvestClient, Error>)
        ensures
            match r {
                Ok(c) => {
                    &&& config.harvest_account_id is Some && config.harvest_token is Some
                    &&& c.credentials.account_id == config.harvest_account_id->0
                    &&& c.credentials.token == config.harvest_token->0
                    &&& c.user_id == config.harvest_user_id
                    &&& c.query.from == config.start_date
                    &&& c.query.to == config.end_date
                },
                Err(e) => e == Error::MissingCredential && (config.harvest_account_id is None
                    || config.harvest_token is None),
            },
    {
        let credentials = match HarvestCredentials::from_cfg(config) {
            Ok(c) => c,
            Err(e) => {
                return Err(e);
            },
        };
        Ok(
            HarvestClient {
                credentials,
                user_id: config.harvest_user_id,
                query: QueryOptions { from: config.start_date, to: config.end_date },
            },
        )
    }

    /// Whether the "who am I" call must run before entries can be
    /// listed.
    pub fn needs_user(&self) -> (b: bool)
        ensures
            b == (self.user_id is None),
    {
        self.user_id.is_none()
    }

    /// Records the user the "who am I" call reported.
    pub fn set_user(&mut self, user: User)
        ensures
            final(self).user_id == Some(user.id),
            final(self).credentials == old(self).credentials,
            final(self).query == old(self).query,
    {
        self.user_id = Some(user.id);
    }

    /// The query of the time-entries call: the known user id and the
    /// run's date bounds.
    pub fn build_query(&self) -> (q: TimeEntriesQuery)
        requires
            self.user_id is Some,
        ensures
            q.user_id == self.user_id->0,
            q.from == self.query.from,
            q.to == self.query.to,
    {
        TimeEntriesQuery { user_id: self.user_id.unwrap(), from: self.query.from, to: self.query.to }
    }
}

} // verus!
