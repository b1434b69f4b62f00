use vstd::prelude::*;

verus! {

/// The configuration of the service.
#[derive(Default, Debug)]
pub struct Config {
    pub http: HttpConfig,
    pub db: DbConfig,
}

/// Where the database is and how to log in to it.
#[derive(Default, Debug)]
pub struct DbConfig {
    pub user: String,
    pub password: String,
    pub host: String,
    pub port: u16,
    pub database: String,
}

/// Where the service listens.
#[derive(Default, Debug)]
pub struct HttpConfig {
    pub host: String,
    pub port: u16,
}

} // verus!
