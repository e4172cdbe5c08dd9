//! Process configuration as plain data. Reading it from the environment is
//! the embedding program's job; the engine only carries the values.

use vstd::prelude::*;

verus! {

#[derive(Debug)]
pub struct Config {
    pub server: ServerConfig,
    pub database: DatabaseConfig,
    pub jwt: JwtConfig,
}

#[derive(Debug)]
pub struct ServerConfig {
    pub host: String,
    pub port: u16,
}

#[derive(Debug)]
pub struct DatabaseConfig {
    pub url: String,
    pub max_connections: u32,
}

#[derive(Debug)]
pub struct JwtConfig {
    pub secret: String,
    pub expiration: String,
}

} // verus!
