use vstd::prelude::*;

verus! {

/// The configuration parameters for the application.
///
/// Immutable after startup: the database connection target and the
/// bind address and port for the listener.
pub struct Config {
    pub database_url: String,
    pub port: u64,
    pub address: String,
}

impl Config {
    pub fn new(database_url: String, port: u64, address: String) -> (c: Config)
        ensures
            c.database_url@ == database_url@,
            c.port == port,
            c.address@ == address@,
    {
        Config { database_url, port, address }
    }
}

} // verus!
