//! The server's settings, read from an ini-like configuration text with the
//! `simple_config_parser` crate.

use vstd::prelude::*;

use simple_config_parser::Config as IniConfig;
use simple_config_parser::ConfigError as IniError;

use crate::text::{parse_u16, parse_u16_spec};

verus! {

#[verifier::external_type_specification]
#[verifier::external_body]
pub struct ExConfigText(IniConfig);

#[verifier::external_type_specification]
#[verifier::external_body]
pub struct ExConfigParseError(IniError);

/// A configuration's entries, as (key, value) pairs in the order read.
pub type Entries = Seq<(Seq<char>, Seq<char>)>;

/// The entries that `simple_config_parser` reads from a text, or `None` when
/// it refuses the text.
pub uninterp spec fn parsed_entries(text: Seq<char>) -> Option<Entries>;

/// The entries a parsed configuration holds.
pub uninterp spec fn config_entries(cfg: IniConfig) -> Entries;

/// Parses a configuration text (`simple_config_parser::Config::text`, on a
/// fresh `Config::new()`). Claimed: it succeeds exactly when the named parse
/// of the text does, and then holds exactly the parsed entries.
#[verifier::external_body]
fn parse_config_text(text: &str) -> (r: Result<IniConfig, IniError>)
    ensures
        match r {
            Ok(c) => parsed_entries(text@) == Some(config_entries(c)),
            Err(_) => parsed_entries(text@) is None,
        },
{
    IniConfig::new().text(text)
}

/// Whether a key is written in ASCII without capitals, so that lowering it
/// leaves it unchanged.
pub open spec fn is_lower_ascii(key: Seq<char>) -> bool {
    forall|i: int| 0 <= i < key.len() ==> (#[trigger] key[i] as u32) < 128 && !('A' <= key[i] && key[i] <= 'Z')
}

/// The value of the last entry with the given key.
pub open spec fn last_value(entries: Entries, key: Seq<char>) -> Option<Seq<char>>
    decreases entries.len(),
{
    if entries.len() == 0 {
        None
    } else if entries.last().0 == key {
        Some(entries.last().1)
    } else {
        last_value(entries.drop_last(), key)
    }
}

/// Law: a key has a value exactly when some entry names it, and then the
/// value is that of the last entry that names it.
pub proof fn law_last_value(entries: Entries, key: Seq<char>)
    ensures
        (forall|k: int| 0 <= k < entries.len() ==> (#[trigger] entries[k]).0 != key) ==> last_value(entries, key)
            is None,
        (exists|k: int| 0 <= k < entries.len() && (#[trigger] entries[k]).0 == key) ==> exists|k: int|
            0 <= k < entries.len() && (#[trigger] entries[k]).0 == key && last_value(entries, key)
                == Some(entries[k].1) && forall|m: int| k < m < entries.len() ==> (#[trigger] entries[m]).0 != key,
    decreases entries.len(),
{
    if entries.len() > 0 {
        let t = entries.drop_last();
        law_last_value(t, key);
        let n = entries.len() - 1;
        assert(entries[n] == entries.last());
        if entries.last().0 != key {
            if exists|k: int| 0 <= k < entries.len() && (#[trigger] entries[k]).0 == key {
                let k0 = choose|k: int| 0 <= k < entries.len() && (#[trigger] entries[k]).0 == key;
                assert(k0 < n);
                assert(t[k0] == entries[k0]);
                let k1 = choose|k: int|
                    0 <= k < t.len() && (#[trigger] t[k]).0 == key && last_value(t, key) == Some(t[k].1)
                        && forall|m: int| k < m < t.len() ==> (#[trigger] t[m]).0 != key;
                assert(entries[k1] == t[k1]);
                assert forall|m: int| k1 < m < entries.len() implies (#[trigger] entries[m]).0 != key by {
                    if m < n {
                        assert(entries[m] == t[m]);
                    }
                }
            }
            if forall|k: int| 0 <= k < entries.len() ==> (#[trigger] entries[k]).0 != key {
                assert forall|k: int| 0 <= k < t.len() implies (#[trigger] t[k]).0 != key by {
                    assert(entries[k] == t[k]);
                }
            }
        }
    }
}

/// Looks a key up (`simple_config_parser::Config::get_str`). Claimed, as its
/// source shows: it lowers the key and returns the value of the last entry
/// with that key, or an error when there is none. For a key already in
/// lowercase ASCII the result is stated; for other keys nothing is stated.
#[verifier::external_body]
fn config_get(cfg: &IniConfig, key: &str) -> (r: Option<String>)
    ensures
        is_lower_ascii(key@) ==> match r {
            Some(v) => last_value(config_entries(*cfg), key@) == Some(v@),
            None => last_value(config_entries(*cfg), key@) is None,
        },
{
    cfg.get_str(key).ok()
}

/// The settings the server reads at start.
#[derive(Debug)]
pub struct Config {
    pub host: String,
    pub port: u16,
    pub database: String,
    pub admin_login: String,
}

/// The settings by their plain values: host, port, database, admin login.
pub type ConfigView = (Seq<char>, u16, Seq<char>, Seq<char>);

impl View for Config {
    type V = ConfigView;

    open spec fn view(&self) -> ConfigView {
        (self.host@, self.port, self.database@, self.admin_login@)
    }
}

/// The settings a configuration must name.
#[derive(Clone, Copy, Debug, PartialEq, Eq, Structural)]
pub enum ConfigKey {
    Host,
    Port,
    Database,
    Login,
}

/// Why a configuration cannot be loaded.
#[derive(Clone, Copy, Debug, PartialEq, Eq, Structural)]
pub enum ConfigLoadError {
    /// The text is not a valid configuration.
    InvalidConfig,
    /// A setting is missing.
    Missing(ConfigKey),
    /// The port is not a number from 0 to 65535.
    InvalidPort,
}

/// What loading a configuration text gives: the settings `host`, `port`,
/// `database` and `login` (each the last entry with that key), checked in
/// that order.
pub open spec fn config_spec(text: Seq<char>) -> Result<ConfigView, ConfigLoadError> {
    match parsed_entries(text) {
        None => Err(ConfigLoadError::InvalidConfig),
        Some(e) => match last_value(e, "host"@) {
            None => Err(ConfigLoadError::Missing(ConfigKey::Host)),
            Some(host) => match last_value(e, "port"@) {
                None => Err(ConfigLoadError::Missing(ConfigKey::Port)),
                Some(p) => match parse_u16_spec(p) {
                    None => Err(ConfigLoadError::InvalidPort),
                    Some(port) => match last_value(e, "database"@) {
                        None => Err(ConfigLoadError::Missing(ConfigKey::Database)),
                        Some(database) => match last_value(e, "login"@) {
                            None => Err(ConfigLoadError::Missing(ConfigKey::Login)),
                            Some(login) => Ok((host, port, database, login)),
                        },
                    },
                },
            },
        },
    }
}

impl Config {
    /// Loads the settings from a configuration text.
    pub fn load(text: &str) -> (r: Result<Config, ConfigLoadError>)
        ensures
            match r {
                Ok(c) => config_spec(text@) == Ok::<ConfigView, ConfigLoadError>(c@),
                Err(e) => config_spec(text@) == Err::<ConfigView, ConfigLoadError>(e),
            },
    {
        proof {
            reveal_strlit("host");
            reveal_strlit("port");
            reveal_strlit("database");
            reveal_strlit("login");
        }
        let cfg = match parse_config_text(text) {
            Ok(c) => c,
            Err(_) => return Err(ConfigLoadError::InvalidConfig),
        };
        let host = match config_get(&cfg, "host") {
            Some(v) => v,
            None => return Err(ConfigLoadError::Missing(ConfigKey::Host)),
        };
        let port_text = match config_get(&cfg, "port") {
            Some(v) => v,
            None => return Err(ConfigLoadError::Missing(ConfigKey::Port)),
        };
        let port = match parse_u16(port_text.as_str()) {
            Some(p) => p,
            None => return Err(ConfigLoadError::InvalidPort),
        };
        let database = match config_get(&cfg, "database") {
            Some(v) => v,
            None => return Err(ConfigLoadError::Missing(ConfigKey::Database)),
        };
        let admin_login = match config_get(&cfg, "login") {
            Some(v) => v,
            None => return Err(ConfigLoadError::Missing(ConfigKey::Login)),
        };
        Ok(Config { host, port, database, admin_login })
    }
}

} // verus!
