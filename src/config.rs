use vstd::prelude::*;

verus! {

/// Where and as whom to reach the game database.
#[derive(Clone, Debug, PartialEq, Eq)]
pub struct DbConfig {
    pub host: String,
    pub port: u16,
    pub database: String,
    pub user: String,
    pub password: String,
    pub max_connections: u32,
}

/// The settings of the whole program.
#[derive(Clone, Debug, PartialEq, Eq)]
pub struct AppConfig {
    pub db: DbConfig,
}

} // verus!
