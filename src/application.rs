//! The application: the configuration that every operation reads.
use vstd::prelude::*;

use crate::config::Config;

verus! {

/// The application, with its configuration.
#[derive(Debug)]
pub struct Application {
    config: Config,
}

impl Application {
    /// The application with the configuration `config`.
    pub fn new(config: Config) -> (r: Application)
        ensures
            r.config() == config,
    {
        Application { config }
    }

    /// The configuration.
    pub closed spec fn config(&self) -> Config {
        self.config
    }

    /// The configuration.
    pub fn configuration(&self) -> (r: &Config)
        ensures
            *r == self.config(),
    {
        &self.config
    }
}

} // verus!
