//! The service's configuration: five settings, resolved once, before any
//! network traffic.

use vstd::prelude::*;
use vstd::string::StringExecFns;
use crate::text::{decimal_text, decimal_value, is_decimal, opt_text, parse_decimal, push_decimal};

verus! {

/// One of the five settings.
#[derive(Clone, Copy, Debug, PartialEq, Eq, Structural)]
pub enum Setting {
    /// The connection string of the relational store.
    DatabaseUrl,
    /// The host to bind the listener to.
    Host,
    /// The port to bind the listener to.
    Port,
    /// The base URL of the identity provider.
    IdentityUrl,
    /// The identity provider's realm.
    Realm,
}

impl Setting {
    /// The name of the environment variable that carries the setting.
    pub open spec fn variable_text(self) -> Seq<char> {
        match self {
            Setting::DatabaseUrl => "DATABASE_URL"@,
            Setting::Host => "HOST"@,
            Setting::Port => "PORT"@,
            Setting::IdentityUrl => "KEYCLOAK_URL"@,
            Setting::Realm => "REALM"@,
        }
    }

    pub fn variable(self) -> (name: &'static str)
        ensures
            name@ == self.variable_text(),
    {
        match self {
            Setting::DatabaseUrl => "DATABASE_URL",
            Setting::Host => "HOST",
            Setting::Port => "PORT",
            Setting::IdentityUrl => "KEYCLOAK_URL",
            Setting::Realm => "REALM",
        }
    }
}

/// Why the settings do not make a configuration.
#[derive(Clone, Copy, Debug, PartialEq, Eq, Structural)]
pub enum ConfigError {
    /// The setting is required and was not given.
    Missing(Setting),
    /// The setting was given but cannot be read.
    Malformed(Setting),
}

impl ConfigError {
    /// The setting that is at fault.
    pub fn setting(self) -> (setting: Setting)
        ensures
            self == ConfigError::Missing(setting) || self == ConfigError::Malformed(setting),
    {
        match self {
            ConfigError::Missing(setting) => setting,
            ConfigError::Malformed(setting) => setting,
        }
    }
}

/// The settings as they were found, each present or not, none looked at yet.
#[derive(Debug, PartialEq, Eq)]
pub struct Settings {
    pub database_url: Option<String>,
    pub host: Option<String>,
    pub port: Option<String>,
    pub identity_url: Option<String>,
    pub realm: Option<String>,
}

pub struct SettingsView {
    pub database_url: Option<Seq<char>>,
    pub host: Option<Seq<char>>,
    pub port: Option<Seq<char>>,
    pub identity_url: Option<Seq<char>>,
    pub realm: Option<Seq<char>>,
}

impl View for Settings {
    type V = SettingsView;

    open spec fn view(&self) -> SettingsView {
        SettingsView {
            database_url: opt_text(self.database_url),
            host: opt_text(self.host),
            port: opt_text(self.port),
            identity_url: opt_text(self.identity_url),
            realm: opt_text(self.realm),
        }
    }
}

/// The configuration of a running service. It does not change once made.
#[derive(Debug, PartialEq, Eq)]
pub struct Config {
    pub database_url: String,
    pub host: String,
    pub port: u16,
    pub identity_url: String,
    pub realm: String,
}

pub struct ConfigView {
    pub database_url: Seq<char>,
    pub host: Seq<char>,
    pub port: u16,
    pub identity_url: Seq<char>,
    pub realm: Seq<char>,
}

impl View for Config {
    type V = ConfigView;

    open spec fn view(&self) -> ConfigView {
        ConfigView {
            database_url: self.database_url@,
            host: self.host@,
            port: self.port,
            identity_url: self.identity_url@,
            realm: self.realm@,
        }
    }
}

impl Clone for Config {
    fn clone(&self) -> (copy: Config)
        ensures
            copy@ == self@,
    {
        Config {
            database_url: self.database_url.clone(),
            host: self.host.clone(),
            port: self.port,
            identity_url: self.identity_url.clone(),
            realm: self.realm.clone(),
        }
    }
}

/// Whether `reqwest::Url::parse` accepts the text as an absolute URL.
pub uninterp spec fn url_accepts(text: Seq<char>) -> bool;

/// Asks `reqwest::Url::parse` whether it can read `text` as an absolute URL.
///
/// The parser is a function of the text alone; nothing more is claimed of
/// it than that its verdict on a text has the name [`url_accepts`].
#[verifier::external_body]
fn url_parses(text: &str) -> (ok: bool)
    ensures
        ok == url_accepts(text@),
{
    reqwest::Url::parse(text).is_ok()
}

/// A port is a decimal number that fits in sixteen bits.
pub open spec fn port_of(text: Seq<char>) -> Option<u16> {
    if is_decimal(text) && decimal_value(text) <= 0xFFFF {
        Some(decimal_value(text) as u16)
    } else {
        None
    }
}

/// The configuration that the settings make, or the first thing wrong with
/// them, going through the settings in their fixed order. `url_ok` says
/// whether the identity provider's URL can be parsed.
pub open spec fn assembled(settings: SettingsView, url_ok: bool) -> Result<ConfigView, ConfigError> {
    if settings.database_url is None {
        Err(ConfigError::Missing(Setting::DatabaseUrl))
    } else if settings.host is None {
        Err(ConfigError::Missing(Setting::Host))
    } else if settings.port is None {
        Err(ConfigError::Missing(Setting::Port))
    } else if port_of(settings.port->0) is None {
        Err(ConfigError::Malformed(Setting::Port))
    } else if settings.identity_url is None {
        Err(ConfigError::Missing(Setting::IdentityUrl))
    } else if !url_ok {
        Err(ConfigError::Malformed(Setting::IdentityUrl))
    } else if settings.realm is None {
        Err(ConfigError::Missing(Setting::Realm))
    } else {
        Ok(
            ConfigView {
                database_url: settings.database_url->0,
                host: settings.host->0,
                port: port_of(settings.port->0)->0,
                identity_url: settings.identity_url->0,
                realm: settings.realm->0,
            },
        )
    }
}

/// What the URL parser says of the identity provider's URL, where one is given.
pub open spec fn identity_url_accepted(settings: SettingsView) -> bool {
    match settings.identity_url {
        Some(url) => url_accepts(url),
        None => false,
    }
}

/// Whether `outcome` is the given result, the configuration taken by its view.
pub open spec fn yields(outcome: Result<Config, ConfigError>, expected: Result<ConfigView, ConfigError>) -> bool {
    match expected {
        Ok(view) => outcome is Ok && outcome->Ok_0@ == view,
        Err(e) => outcome == Err::<Config, ConfigError>(e),
    }
}

impl Config {
    /// Makes the configuration from the settings, given the URL parser's
    /// verdict on the identity provider's URL.
    pub fn assemble(settings: Settings, url_ok: bool) -> (outcome: Result<Config, ConfigError>)
        ensures
            yields(outcome, assembled(settings@, url_ok)),
    {
        let database_url = match settings.database_url {
            Some(text) => text,
            None => {
                return Err(ConfigError::Missing(Setting::DatabaseUrl));
            },
        };
        let host = match settings.host {
            Some(text) => text,
            None => {
                return Err(ConfigError::Missing(Setting::Host));
            },
        };
        let port_text = match settings.port {
            Some(text) => text,
            None => {
                return Err(ConfigError::Missing(Setting::Port));
            },
        };
        let port: u16 = match parse_decimal(port_text.as_str(), 0xFFFF) {
            Some(number) => number as u16,
            None => {
                return Err(ConfigError::Malformed(Setting::Port));
            },
        };
        let identity_url = match settings.identity_url {
            Some(text) => text,
            None => {
                return Err(ConfigError::Missing(Setting::IdentityUrl));
            },
        };
        if !url_ok {
            return Err(ConfigError::Malformed(Setting::IdentityUrl));
        }
        let realm = match settings.realm {
            Some(text) => text,
            None => {
                return Err(ConfigError::Missing(Setting::Realm));
            },
        };
        Ok(Config { database_url, host, port, identity_url, realm })
    }

    /// Makes the configuration from the settings. The identity provider's
    /// URL must be one that the URL parser accepts.
    pub fn load(settings: Settings) -> (outcome: Result<Config, ConfigError>)
        ensures
            yields(outcome, assembled(settings@, identity_url_accepted(settings@))),
    {
        let url_ok = match &settings.identity_url {
            Some(url) => url_parses(url.as_str()),
            None => false,
        };
        Config::assemble(settings, url_ok)
    }

    /// The address to bind the listener to: the host, a colon, the port.
    pub open spec fn address(self) -> Seq<char> {
        self.host@ + seq![':'] + decimal_text(self.port as nat)
    }

    pub fn bind_address(&self) -> (address: String)
        ensures
            address@ == self.address(),
    {
        proof {
            reveal_strlit(":");
        }
        let mut address = self.host.clone();
        address.append(":");
        push_decimal(&mut address, self.port as u64);
        assert(address@ =~= self.address()) by {
            assert(":"@ =~= seq![':']);
        }
        address
    }
}

} // verus!
