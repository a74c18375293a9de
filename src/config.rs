use vstd::prelude::*;
use crate::text::{parse_unsigned, unsigned_value};

verus! {

/// Seconds between ticks when no interval is configured.
pub const DEFAULT_CHECK_INTERVAL_SECS: u64 = 300;

/// The settings of a running instance.
#[derive(Debug)]
pub struct Config {
    pub database_url: String,
    /// Seconds between ticks.
    pub check_interval: u64,
}

impl Clone for Config {
    fn clone(&self) -> (r: Self)
        ensures
            r == *self,
    {
        Config { database_url: self.database_url.clone(), check_interval: self.check_interval }
    }
}

/// Why the settings could not be formed.
#[derive(Clone, Copy, Debug, PartialEq, Eq, Structural)]
pub enum ConfigError {
    MissingDatabaseUrl,
    InvalidCheckInterval,
}

impl ConfigError {
    pub open spec fn message_spec(&self) -> Seq<char> {
        match self {
            ConfigError::MissingDatabaseUrl => "DATABASE_URL not set"@,
            ConfigError::InvalidCheckInterval => "Invalid CHECK_INTERVAL"@,
        }
    }

    /// The text that reports the error.
    pub fn message(&self) -> (r: String)
        ensures
            r@ == self.message_spec(),
    {
        match self {
            ConfigError::MissingDatabaseUrl => String::from_str("DATABASE_URL not set"),
            ConfigError::InvalidCheckInterval => String::from_str("Invalid CHECK_INTERVAL"),
        }
    }
}

impl Config {
    /// Forms the settings from the raw values of the database URL and of the
    /// check interval (absent when not set). The database URL is required;
    /// the interval defaults to five minutes and must otherwise be a positive
    /// unsigned decimal number of seconds (a timer cannot run with a period
    /// of zero).
    pub fn from_values(database_url: Option<String>, check_interval: Option<String>) -> (r: Result<
        Config,
        ConfigError,
    >)
        ensures
            database_url is None ==> r == Err::<Config, ConfigError>(ConfigError::MissingDatabaseUrl),
            database_url matches Some(url) ==> match check_interval {
                None => r matches Ok(c) && c.database_url == url && c.check_interval
                    == DEFAULT_CHECK_INTERVAL_SECS,
                Some(text) => match unsigned_value(text@) {
                    Some(v) => if v > 0 {
                        r matches Ok(c) && c.database_url == url && c.check_interval == v
                    } else {
                        r == Err::<Config, ConfigError>(ConfigError::InvalidCheckInterval)
                    },
                    None => r == Err::<Config, ConfigError>(ConfigError::InvalidCheckInterval),
                },
            },
    {
        let url = match database_url {
            Some(u) => u,
            None => {
                return Err(ConfigError::MissingDatabaseUrl);
            },
        };
        let interval = match check_interval {
            None => DEFAULT_CHECK_INTERVAL_SECS,
            Some(text) => match parse_unsigned(text.as_str()) {
                Some(v) => if v > 0 {
                    v
                } else {
                    return Err(ConfigError::InvalidCheckInterval);
                },
                None => {
                    return Err(ConfigError::InvalidCheckInterval);
                },
            },
        };
        Ok(Config { database_url: url, check_interval: interval })
    }
}

} // verus!
