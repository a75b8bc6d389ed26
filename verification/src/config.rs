use vstd::prelude::*;
use vstd::string::*;

use crate::dates::Date;
use crate::dates::parse_date;
use crate::error::Error;

verus! {

/// One layer of settings. Every field is optional so that layers can be
/// merged field by field: defaults, then the configuration file, then
/// CLI flags and environment variables, each later layer overriding the
/// earlier ones where it has a value.
#[derive(Debug)]
pub struct Config {
    /// Path of the template that renders the fetched entries.
    pub template_path: Option<String>,
    /// First day of the queried range.
    pub start_date: Option<Date>,
    /// Last day of the queried range.
    pub end_date: Option<Date>,
    /// Path of a TOML configuration file to merge in.
    pub config_path: Option<String>,
    /// Numeric account id of the time-tracking service.
    pub harvest_account_id: Option<u32>,
    /// Personal access token for the service. Secret: never printed.
    pub harvest_token: Option<String>,
    /// Numeric user id whose entries are queried.
    pub harvest_user_id: Option<u32>,
}

/// Field-level merge: the higher layer wins where it has a value.
pub open spec fn or_later<T>(lo: Option<T>, hi: Option<T>) -> Option<T> {
    if hi is Some {
        hi
    } else {
        lo
    }
}

/// Merge of two layers, field by field; `hi` takes precedence.
pub open spec fn spec_merge_two(lo: Config, hi: Config) -> Config {
    Config {
        template_path: or_later(lo.template_path, hi.template_path),
        start_date: or_later(lo.start_date, hi.start_date),
        end_date: or_later(lo.end_date, hi.end_date),
        config_path: or_later(lo.config_path, hi.config_path),
        harvest_account_id: or_later(lo.harvest_account_id, hi.harvest_account_id),
        harvest_token: or_later(lo.harvest_token, hi.harvest_token),
        harvest_user_id: or_later(lo.harvest_user_id, hi.harvest_user_id),
    }
}

pub open spec fn spec_empty() -> Config {
    Config {
        template_path: None,
        start_date: None,
        end_date: None,
        config_path: None,
        harvest_account_id: None,
        harvest_token: None,
        harvest_user_id: None,
    }
}

/// Merge of a whole stack of layers, lowest precedence first.
pub open spec fn spec_merge(layers: Seq<Config>) -> Config
    decreases layers.len(),
{
    if layers.len() == 0 {
        spec_empty()
    } else {
        spec_merge_two(spec_merge(layers.drop_last()), layers.last())
    }
}

/// The built-in defaults: no paths, no credentials, and both ends of the
/// date range set to the given current day.
pub open spec fn spec_defaults(today: Date) -> Config {
    Config {
        template_path: None,
        start_date: Some(today),
        end_date: Some(today),
        config_path: None,
        harvest_account_id: None,
        harvest_token: None,
        harvest_user_id: None,
    }
}

pub(crate) fn clone_opt_string(o: &Option<String>) -> (r: Option<String>)
    ensures
        r == *o,
{
    match o {
        Some(s) => Some(s.clone()),
        None => None,
    }
}

impl Config {
    pub fn empty() -> (r: Config)
        ensures
            r == spec_empty(),
    {
        Config {
            template_path: None,
            start_date: None,
            end_date: None,
            config_path: None,
            harvest_account_id: None,
            harvest_token: None,
            harvest_user_id: None,
        }
    }

    pub fn defaults(today: Date) -> (r: Config)
        ensures
            r == spec_defaults(today),
    {
        Config {
            template_path: None,
            start_date: Some(today),
            end_date: Some(today),
            config_path: None,
            harvest_account_id: None,
            harvest_token: None,
            harvest_user_id: None,
        }
    }

    /// Merges a stack of layers, lowest precedence first: a later layer's
    /// field overrides an earlier one's exactly where the later field is
    /// present.
    pub fn merge(layers: Vec<Config>) -> (r: Config)
        ensures
            r == spec_merge(layers@),
    {
        let mut acc = Config::empty();
        let mut i: usize = 0;
        while i < layers.len()
            invariant
                i <= layers.len(),
                acc == spec_merge(layers@.subrange(0, i as int)),
            decreases layers.len() - i,
        {
            let layer = &layers[i];
            if layer.template_path.is_some() {
                acc.template_path = clone_opt_string(&layer.template_path);
            }
            if layer.start_date.is_some() {
                acc.start_date = layer.start_date;
            }
            if layer.end_date.is_some() {
                acc.end_date = layer.end_date;
            }
            if layer.config_path.is_some() {
                acc.config_path = clone_opt_string(&layer.config_path);
            }
            if layer.harvest_account_id.is_some() {
                acc.harvest_account_id = layer.harvest_account_id;
            }
            if layer.harvest_token.is_some() {
                acc.harvest_token = clone_opt_string(&layer.harvest_token);
            }
            if layer.harvest_user_id.is_some() {
                acc.harvest_user_id = layer.harvest_user_id;
            }
            i = i + 1;
            proof {
                assert(layers@.subrange(0, i as int).drop_last() =~= layers@.subrange(
                    0,
                    i as int - 1,
                ));
            }
        }
        proof {
            assert(layers@.subrange(0, layers@.len() as int) =~= layers@);
        }
        acc
    }
}

/// The layers a run is resolved from: defaults, then the optional file
/// layer, then the CLI/environment layer.
pub open spec fn spec_layers(cli: Config, file: Option<Config>, today: Date) -> Seq<Config> {
    match file {
        Some(f) => seq![spec_defaults(today), f, cli],
        None => seq![spec_defaults(today), cli],
    }
}

/// Merges defaults, the optional file layer and the CLI/environment layer
/// into one settings object, and demands that the merged result carries an
/// account id and an access token.
pub fn resolve(cli: Config, file: Option<Config>, today: Date) -> (r: Result<Config, Error>)
    ensures
        ({
            let merged = spec_merge(spec_layers(cli, file, today));
            match r {
                Ok(s) => s == merged && merged.harvest_account_id is Some
                    && merged.harvest_token is Some,
                Err(e) => e == Error::MissingCredential && (merged.harvest_account_id is None
                    || merged.harvest_token is None),
            }
        }),
{
    let ghost gcli = cli;
    let ghost gfile = file;
    let mut layers: Vec<Config> = Vec::new();
    layers.push(Config::defaults(today));
    match file {
        Some(f) => {
            layers.push(f);
        },
        None => {},
    }
    layers.push(cli);
    proof {
        assert(layers@ =~= spec_layers(gcli, gfile, today));
    }
    let merged = Config::merge(layers);
    if merged.harvest_account_id.is_some() && merged.harvest_token.is_some() {
        Ok(merged)
    } else {
        Err(Error::MissingCredential)
    }
}

/// Date text that is not the canonical `YYYY-MM-DD` rendering of any
/// well-formed date.
pub open spec fn bad_date_text(o: Option<String>) -> bool {
    o matches Some(s) && (forall|d: Date| d.wf() ==> s@ != crate::dates::date_chars(d))
}

/// A settings layer as it arrives from the outside world: paths and ids
/// as plain values, dates still as text.
#[derive(Debug)]
pub struct RawConfig {
    pub template_path: Option<String>,
    pub start_date: Option<String>,
    pub end_date: Option<String>,
    pub config_path: Option<String>,
    pub harvest_account_id: Option<u32>,
    pub harvest_token: Option<String>,
    pub harvest_user_id: Option<u32>,
}

impl Config {
    /// Parses the date fields of a raw layer. Fails with `InvalidDate`,
    /// naming the field and the offending value, exactly when a present
    /// date field is not a valid `YYYY-MM-DD` date.
    pub fn from_raw(raw: RawConfig) -> (r: Result<Config, Error>)
        ensures
            match r {
                Ok(c) => {
                    &&& c.template_path == raw.template_path
                    &&& c.config_path == raw.config_path
                    &&& c.harvest_account_id == raw.harvest_account_id
                    &&& c.harvest_token == raw.harvest_token
                    &&& c.harvest_user_id == raw.harvest_user_id
                    &&& match raw.start_date {
                        Some(s) => c.start_date matches Some(d) && d.wf() && s@
                            == crate::dates::date_chars(d),
                        None => c.start_date is None,
                    }
                    &&& match raw.end_date {
                        Some(s) => c.end_date matches Some(d) && d.wf() && s@
                            == crate::dates::date_chars(d),
                        None => c.end_date is None,
                    }
                },
                Err(e) => {
                    &&& bad_date_text(raw.start_date) || bad_date_text(raw.end_date)
                    &&& bad_date_text(raw.start_date) ==> (e matches Error::InvalidDate {
                        field,
                        value,
                    } && field@ == "start_date"@ && raw.start_date == Some(value))
                    &&& !bad_date_text(raw.start_date) ==> (e matches Error::InvalidDate {
                        field,
                        value,
                    } && field@ == "end_date"@ && raw.end_date == Some(value))
                },
            },
    {
        let start_date = match raw.start_date {
            Some(s) => {
                match parse_date(s.as_str()) {
                    Some(d) => Some(d),
                    None => {
                        return Err(
                            Error::InvalidDate { field: String::from_str("start_date"), value: s },
                        );
                    },
                }
            },
            None => None,
        };
        let end_date = match raw.end_date {
            Some(s) => {
                match parse_date(s.as_str()) {
                    Some(d) => Some(d),
                    None => {
                        return Err(
                            Error::InvalidDate { field: String::from_str("end_date"), value: s },
                        );
                    },
                }
            },
            None => None,
        };
        Ok(
            Config {
                template_path: raw.template_path,
                start_date,
                end_date,
                config_path: raw.config_path,
                harvest_account_id: raw.harvest_account_id,
                harvest_token: raw.harvest_token,
                harvest_user_id: raw.harvest_user_id,
            },
        )
    }
}

/// Law: in any merged stack, a field present in the last (highest
/// precedence) layer overrides the layers below it, and a field absent
/// there never clears what the layers below supplied.
pub proof fn lemma_merge_override(layers: Seq<Config>)
    requires
        layers.len() > 0,
    ensures
        spec_merge(layers).template_path == (if layers.last().template_path is Some {
            layers.last().template_path
        } else {
            spec_merge(layers.drop_last()).template_path
        }),
        spec_merge(layers).start_date == (if layers.last().start_date is Some {
            layers.last().start_date
        } else {
            spec_merge(layers.drop_last()).start_date
        }),
        spec_merge(layers).end_date == (if layers.last().end_date is Some {
            layers.last().end_date
        } else {
            spec_merge(layers.drop_last()).end_date
        }),
        spec_merge(layers).config_path == (if layers.last().config_path is Some {
            layers.last().config_path
        } else {
            spec_merge(layers.drop_last()).config_path
        }),
        spec_merge(layers).harvest_account_id == (if layers.last().harvest_account_id is Some {
            layers.last().harvest_account_id
        } else {
            spec_merge(layers.drop_last()).harvest_account_id
        }),
        spec_merge(layers).harvest_token == (if layers.last().harvest_token is Some {
            layers.last().harvest_token
        } else {
            spec_merge(layers.drop_last()).harvest_token
        }),
        spec_merge(layers).harvest_user_id == (if layers.last().harvest_user_id is Some {
            layers.last().harvest_user_id
        } else {
            spec_merge(layers.drop_last()).harvest_user_id
        }),
{
}

} // verus!
