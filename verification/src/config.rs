//! Runtime settings for the service. Reading the process environment is the
//! caller's job; this module only holds the parsed values.

use vstd::prelude::*;

verus! {

/// Which deployment the process runs as.
pub enum Environment {
    Development,
    Production,
    Testing,
}

/// Mail-relay settings, present only when outbound mail is configured.
pub struct SmtpConfig {
    pub host: String,
    pub port: u16,
    pub username: String,
    pub password: String,
    pub from_email: String,
}

/// Settings the service runs with.
pub struct Config {
    pub database_url: String,
    pub jwt_secret: String,
    pub port: u16,
    pub environment: Environment,
    pub cors_origins: Vec<String>,
    pub max_file_size: usize,
    pub redis_url: Option<String>,
    pub smtp_config: Option<SmtpConfig>,
}

impl Config {
    pub fn is_development(&self) -> (r: bool)
        ensures
            r == (self.environment is Development),
    {
        matches!(self.environment, Environment::Development)
    }

    pub fn is_production(&self) -> (r: bool)
        ensures
            r == (self.environment is Production),
    {
        matches!(self.environment, Environment::Production)
    }
}

} // verus!
