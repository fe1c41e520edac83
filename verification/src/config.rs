//! Startup configuration: the read-only parameters a host program
//! hands the core at startup. Reading the TOML file, starting the
//! logger, socket addresses and the PID file all belong to the host
//! program; the core only consumes the values.

use vstd::prelude::*;

verus! {

/// The startup parameters, exactly as the configuration file names
/// them.
#[derive(Debug, Default)]
pub struct Config {
    pub name: String,
    pub version: String,
    pub host: String,
    pub port: u16,
    pub auth_key_file: String,
    pub logging_config: String,
    pub data_folder: String,
}

impl Config {
    /// create and return a copy
    pub fn copy(&self) -> (c: Config)
        ensures
            c == *self,
    {
        Config {
            name: self.name.clone(),
            version: self.version.clone(),
            host: self.host.clone(),
            port: self.port,
            auth_key_file: self.auth_key_file.clone(),
            logging_config: self.logging_config.clone(),
            data_folder: self.data_folder.clone(),
        }
    }
}

impl Clone for Config {
    /// A clone keeps every parameter.
    fn clone(&self) -> (c: Self)
        ensures
            c == *self,
    {
        self.copy()
    }
}

} // verus!
