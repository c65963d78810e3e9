//! The application's configuration: the address and port to bind, the
//! environment that selects a configuration file, and the placeholders that
//! stand for environment variables.

use crate::text::{substring, to_chars};
use vstd::prelude::*;
use vstd::string::*;

verus! {

/// The address and the port that the server binds.
#[derive(Debug, Clone, Copy, PartialEq, Eq)]
pub struct ApplicationConfig {
    pub addr: [u8; 4],
    pub port: u16,
}

impl Default for ApplicationConfig {
    /// Every interface, port 8080.
    fn default() -> (config: Self)
        ensures
            config.addr@ == seq![0u8, 0u8, 0u8, 0u8],
            config.port == 8080,
    {
        let config = ApplicationConfig { addr: [0, 0, 0, 0], port: 8080 };
        proof {
            assert(config.addr@ =~= seq![0u8, 0u8, 0u8, 0u8]);
        }
        config
    }
}

impl ApplicationConfig {
    /// The configuration with the given fields, where a field that is not
    /// given has its default.
    pub fn with_defaults(addr: Option<[u8; 4]>, port: Option<u16>) -> (config: Self)
        ensures
            config.addr@ == match addr {
                Some(a) => a@,
                None => seq![0u8, 0u8, 0u8, 0u8],
            },
            config.port == match port {
                Some(p) => p,
                None => 8080u16,
            },
    {
        let base = ApplicationConfig::default();
        ApplicationConfig {
            addr: match addr {
                Some(a) => a,
                None => base.addr,
            },
            port: match port {
                Some(p) => p,
                None => base.port,
            },
        }
    }
}

/// The name of the environment: what the environment variable says, or
/// `dev` in a debug build and `prod` in a release build without it.
pub open spec fn environment(variable: Option<Seq<char>>, debug: bool) -> Seq<char> {
    match variable {
        Some(name) => name,
        None => if debug {
            "dev"@
        } else {
            "prod"@
        },
    }
}

/// The name of the environment, given the value of the environment variable
/// that names it, if it is set, and whether this is a debug build.
pub fn detect_env(variable: Option<String>, debug: bool) -> (name: String)
    ensures
        name@ == environment(variable.deep_view(), debug),
{
    match variable {
        Some(name) => name,
        None => {
            if debug {
                "dev".to_owned()
            } else {
                "prod".to_owned()
            }
        },
    }
}

/// The name of the configuration file of an environment.
pub fn env_config_file(env: &str) -> (name: String)
    ensures
        name@ == "config."@ + env@ + ".toml"@,
{
    let mut name = "config.".to_owned();
    name.append(env);
    name.append(".toml");
    name
}

/// The environment variable that a string value stands for: a value
/// `${KEY}` stands for `KEY`.
pub open spec fn placeholder_key(value: Seq<char>) -> Option<Seq<char>> {
    if value.len() >= 3 && value[0] == '$' && value[1] == '{' && value.last() == '}' {
        Some(value.subrange(2, value.len() - 1))
    } else {
        None
    }
}

/// The environment variable that a string value stands for, if it stands
/// for one.
pub fn env_placeholder(value: &str) -> (key: Option<String>)
    ensures
        key.deep_view() == placeholder_key(value@),
{
    let chars = to_chars(value);
    let n = chars.len();
    if n >= 3 && chars[0] == '$' && chars[1] == '{' && chars[n - 1] == '}' {
        Some(substring(&chars, 2, n - 1))
    } else {
        None
    }
}

/// A string value after injection: the variable's value where the string
/// stands for a variable that is set, else the string itself.
pub fn inject_env_var(value: String, variable: Option<String>) -> (out: String)
    ensures
        out@ == match (placeholder_key(value@), variable) {
            (Some(_), Some(v)) => v@,
            _ => value@,
        },
{
    match variable {
        Some(v) => {
            if env_placeholder(value.as_str()).is_some() {
                v
            } else {
                value
            }
        },
        None => value,
    }
}

} // verus!
