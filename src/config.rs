use vstd::prelude::*;

verus! {

/// The deployment environment the service runs in.
#[derive(Debug, Clone, Copy, PartialEq, Eq, Structural, PartialOrd)]
pub enum Environment {
    Development,
    Production,
}

impl Default for Environment {
    fn default() -> (r: Self)
        ensures
            r == Environment::Development,
    {
        Environment::Development
    }
}

/// Verbosity of the service's log output.
#[derive(Debug, Clone, Copy, PartialEq, Eq, Structural)]
pub enum LogLevel {
    Error,
    Warn,
    Info,
    Debug,
}

pub fn get_default_env() -> (r: Environment)
    ensures
        r == Environment::Development,
{
    Environment::Development
}

pub fn get_default_port() -> (r: u16)
    ensures
        r == 8080,
{
    8080
}

pub fn get_default_host() -> (r: String)
    ensures
        r@ == "127.0.0.1"@,
{
    String::from_str("127.0.0.1")
}

pub fn get_default_log_level() -> (r: String)
    ensures
        r@ == "info"@,
{
    String::from_str("info")
}

/// Settings of the service, read from the environment at start-up.
#[derive(Debug, Clone)]
pub struct Config {
    pub rust_env: Environment,
    pub rust_log: String,
    pub port: u16,
    pub host: String,
    pub database_url: String,
}

/// The log level named by a `RUST_LOG` value: `info`, `error` and `warn`
/// name their level, anything else means `Debug`.
pub open spec fn level_named(name: Seq<char>) -> LogLevel {
    if name == "info"@ {
        LogLevel::Info
    } else if name == "error"@ {
        LogLevel::Error
    } else if name == "warn"@ {
        LogLevel::Warn
    } else {
        LogLevel::Debug
    }
}

impl Config {
    pub fn rust_log_to_level_filter(&self) -> (r: LogLevel)
        ensures
            r == level_named(self.rust_log@),
    {
        let name = self.rust_log.as_str();
        if crate::text::same_text(name, "info") {
            LogLevel::Info
        } else if crate::text::same_text(name, "error") {
            LogLevel::Error
        } else if crate::text::same_text(name, "warn") {
            LogLevel::Warn
        } else {
            LogLevel::Debug
        }
    }
}

/// How the database connection pool is set up.
#[derive(Debug, Clone, Copy, PartialEq, Eq, Structural)]
pub struct PoolSettings {
    pub max_connections: u32,
    pub min_connections: u32,
    pub connect_timeout_secs: u64,
    pub acquire_timeout_secs: u64,
    /// Whether each SQL statement is logged.
    pub sql_logging: bool,
}

impl Config {
    /// Fifteen connections at most, ten kept open, ten seconds to connect or
    /// to acquire one; statements are logged in development only.
    pub fn pool_settings(&self) -> (r: PoolSettings)
        ensures
            r == (PoolSettings {
                max_connections: 15,
                min_connections: 10,
                connect_timeout_secs: 10,
                acquire_timeout_secs: 10,
                sql_logging: self.rust_env == Environment::Development,
            }),
    {
        PoolSettings {
            max_connections: 15,
            min_connections: 10,
            connect_timeout_secs: 10,
            acquire_timeout_secs: 10,
            sql_logging: self.rust_env == Environment::Development,
        }
    }
}

} // verus!
