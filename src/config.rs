//! The run's configuration, built once at start and passed by value.

use vstd::prelude::*;

use crate::events::occurrence_of_seconds;
use crate::events::occurrence_from_unix;
use crate::transfer::FixedPointPolicy;

verus! {

/// Where the backend lives, what a submission may spend, and how amounts
/// are scaled.
#[derive(Debug, Clone, PartialEq, Eq)]
pub struct Config {
    pub rusk_address: String,
    pub prover_address: String,
    pub graphql_address: String,
    pub gas_limit: u64,
    pub gas_price: Option<u64>,
    pub fixed_point: FixedPointPolicy,
}

impl Default for Config {
    /// Empty addresses, no gas, no price, amounts in millionths.
    fn default() -> (r: Config)
        ensures
            r.rusk_address@.len() == 0,
            r.prover_address@.len() == 0,
            r.graphql_address@.len() == 0,
            r.gas_limit == 0,
            r.gas_price is None,
            r.fixed_point == FixedPointPolicy::Micro,
    {
        Config {
            rusk_address: String::new(),
            prover_address: String::new(),
            graphql_address: String::new(),
            gas_limit: 0,
            gas_price: None,
            fixed_point: FixedPointPolicy::Micro,
        }
    }
}

/// The command line of a run.
#[derive(Debug, Clone, PartialEq, Eq)]
pub struct Args {
    /// Directory of the wallet and of the configuration file.
    pub profile: String,
    /// Password of the wallet.
    pub password: String,
    /// Stamp every transfer with the time of the run instead of its event's.
    pub now: bool,
    /// The feed to reconcile.
    pub json_path: String,
}

impl Args {
    /// The timestamp that overrides every event's occurrence: the run's
    /// time, given in Unix seconds, where `now` is set, and none otherwise.
    pub fn timestamp_override(&self, unix_now: i64) -> (r: Option<u64>)
        ensures
            r == if self.now {
                occurrence_of_seconds(unix_now as int)
            } else {
                None
            },
    {
        if self.now {
            occurrence_from_unix(unix_now)
        } else {
            None
        }
    }
}

} // verus!
