//! Configuration for Squadz server

use vstd::prelude::*;

use crate::text::{parse_unsigned, parsed_unsigned};

verus! {

pub const DEFAULT_PORT: u16 = 8080;

pub const DEFAULT_LOCATION_TTL_SECS: u64 = 300;

pub const DEFAULT_MAX_SQUAD_SIZE: usize = 50;

#[derive(Debug)]
pub struct Config {
    pub host: String,
    pub port: u16,
    pub location_ttl_secs: u64,
    pub max_squad_size: usize,
}

/// The address the server listens on where none is configured.
pub open spec fn default_host() -> Seq<char> {
    "0.0.0.0"@
}

/// The number that a setting stands for: what its text is the numeral of,
/// or `fallback` where the setting is missing, is no numeral, or exceeds
/// `max`.
pub open spec fn number_or(setting: Option<String>, max: nat, fallback: nat) -> nat {
    match setting {
        Some(text) => match parsed_unsigned(text@, max) {
            Some(n) => n,
            None => fallback,
        },
        None => fallback,
    }
}

/// Reads a setting as a number up to `max`.
fn read_number(setting: &Option<String>, max: u64, fallback: u64) -> (number: u64)
    requires
        fallback <= max,
    ensures
        number == number_or(*setting, max as nat, fallback as nat),
        number <= max,
{
    match setting {
        Some(text) => match parse_unsigned(text.as_str(), max) {
            Some(n) => n,
            None => fallback,
        },
        None => fallback,
    }
}

impl Config {
    /// The configuration that the four settings describe, each given as the
    /// text of its variable where the variable is set.
    pub fn from_vars(
        host: Option<String>,
        port: Option<String>,
        location_ttl_secs: Option<String>,
        max_squad_size: Option<String>,
    ) -> (config: Config)
        ensures
            config.host@ == match host {
                Some(h) => h@,
                None => default_host(),
            },
            config.port == number_or(port, u16::MAX as nat, DEFAULT_PORT as nat),
            config.location_ttl_secs == number_or(
                location_ttl_secs,
                u64::MAX as nat,
                DEFAULT_LOCATION_TTL_SECS as nat,
            ),
            config.max_squad_size == number_or(
                max_squad_size,
                usize::MAX as nat,
                DEFAULT_MAX_SQUAD_SIZE as nat,
            ),
    {
        Config {
            host: match host {
                Some(h) => h,
                None => "0.0.0.0".to_owned(),
            },
            port: read_number(&port, u16::MAX as u64, DEFAULT_PORT as u64) as u16,
            location_ttl_secs: read_number(&location_ttl_secs, u64::MAX, DEFAULT_LOCATION_TTL_SECS),
            max_squad_size: read_number(
                &max_squad_size,
                usize::MAX as u64,
                DEFAULT_MAX_SQUAD_SIZE as u64,
            ) as usize,
        }
    }
}

impl Clone for Config {
    fn clone(&self) -> (copy: Config)
        ensures
            copy.host@ == self.host@,
            copy.port == self.port,
            copy.location_ttl_secs == self.location_ttl_secs,
            copy.max_squad_size == self.max_squad_size,
    {
        Config {
            host: self.host.clone(),
            port: self.port,
            location_ttl_secs: self.location_ttl_secs,
            max_squad_size: self.max_squad_size,
        }
    }
}

} // verus!
