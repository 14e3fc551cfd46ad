//! The settings a run resolves: the output format, where the list goes,
//! where the pack lives, and the secrets.

use vstd::prelude::*;

use crate::env::Secret;

verus! {

/// The `[secrets]` table.
pub struct Secrets {
    pub cf_api_key: Option<Secret>,
}

/// A run's settings. Paths are held as text.
pub struct Config {
    pub format: Option<String>,
    pub output: Option<String>,
    pub path: Option<String>,
    pub secrets: Secrets,
}

impl Default for Config {
    fn default() -> (r: Config)
        ensures
            r.format is None,
            r.output is None,
            r.path is None,
            r.secrets.cf_api_key is None,
    {
        Config { format: None, output: None, path: None, secrets: Secrets { cf_api_key: None } }
    }
}

} // verus!
