//! Process configuration.

use crate::error::LCoreError;
use vstd::prelude::*;

verus! {

/// Where the node listens and where it keeps its data.
#[derive(Clone, Debug)]
pub struct Config {
    pub server_addr: String,
    pub database_url: String,
}

impl Config {
    /// The configuration of the node. The defaults are built in; reading
    /// them never fails.
    pub fn from_env() -> (res: Result<Self, LCoreError>)
        ensures
            res matches Ok(config) && config.server_addr@ == "127.0.0.1:3000"@
                && config.database_url@ == "sqlite:lcore.db"@,
    {
        Ok(
            Config {
                server_addr: "127.0.0.1:3000".to_owned(),
                database_url: "sqlite:lcore.db".to_owned(),
            },
        )
    }
}

} // verus!
