//! The server's configuration, as drawn from the settings of its
//! configuration file and environment.

use vstd::prelude::*;
use vstd::string::*;

use crate::text::{
    after_first_sep, contains_text, head_field, parse_u16, parsed_u16, split_first, text_contains,
};
use crate::types::ServerKey;

verus! {

/// Which backend receives the inventory, and where it is.
#[derive(Debug)]
pub enum BackendConfig {
    Sqlite { db_url: String },
    ChannelFinder { base_url: String, username: String },
    Mock,
}

/// The server's configuration.
#[derive(Debug)]
pub struct Config {
    pub server_ip: String,
    pub server_port: u16,
    pub server_key: ServerKey,
    pub backend: BackendConfig,
}

impl Clone for BackendConfig {
    fn clone(&self) -> (r: BackendConfig)
        ensures
            r == *self,
    {
        match self {
            BackendConfig::Sqlite { db_url } => BackendConfig::Sqlite { db_url: db_url.clone() },
            BackendConfig::ChannelFinder { base_url, username } => BackendConfig::ChannelFinder {
                base_url: base_url.clone(),
                username: username.clone(),
            },
            BackendConfig::Mock => BackendConfig::Mock,
        }
    }
}

impl Clone for Config {
    fn clone(&self) -> (r: Config)
        ensures
            r == *self,
    {
        Config {
            server_ip: self.server_ip.clone(),
            server_port: self.server_port,
            server_key: self.server_key,
            backend: self.backend.clone(),
        }
    }
}

/// The settings the configuration is drawn from, each absent when the file
/// or the environment does not give it.
pub struct Settings {
    /// `bind` of section `[recceiver]`: address and port to listen on.
    pub bind: Option<String>,
    /// `procs` of section `[recceiver]`: the processing steps wanted.
    pub procs: Option<String>,
    /// `dbname` of section `[lite]`: the SQLite database file.
    pub db_name: Option<String>,
    /// The `CF_URL` environment variable.
    pub cf_url: Option<String>,
    /// The `CF_USER` environment variable.
    pub cf_user: Option<String>,
}

/// A setting's text, or the default when it is absent.
pub open spec fn setting_or(v: Option<String>, default: Seq<char>) -> Seq<char> {
    match v {
        Some(s) => s@,
        None => default,
    }
}

/// The bind address used when none is configured.
pub open spec fn default_bind() -> Seq<char> {
    "0.0.0.0:5051"@
}

/// The port text between the first and second colon of the bind address,
/// or "5051" when the address has no colon.
pub open spec fn bind_port_text(bind: Seq<char>) -> Seq<char> {
    match after_first_sep(bind, ':') {
        Some(rest) => head_field(rest, ':'),
        None => "5051"@,
    }
}

/// The port the server listens on: the port text read as a number, or 5051
/// when it is not one.
pub open spec fn bind_port(bind: Seq<char>) -> u16 {
    match parsed_u16(bind_port_text(bind)) {
        Some(p) => p,
        None => 5051,
    }
}

/// The backend that the settings ask for: SQLite when the processing steps
/// mention "db", else ChannelFinder when they mention "cf", else the mock.
pub open spec fn backend_matches(s: Settings, b: BackendConfig) -> bool {
    let procs = setting_or(s.procs, Seq::empty());
    if text_contains(procs, "db"@) {
        b matches BackendConfig::Sqlite { db_url } && db_url@ == "sqlite://"@ + setting_or(
            s.db_name,
            "recceiver.db"@,
        )
    } else if text_contains(procs, "cf"@) {
        &&& b matches BackendConfig::ChannelFinder { base_url, username }
        &&& base_url@ == setting_or(s.cf_url, "http://localhost:8080/ChannelFinder"@)
        &&& username@ == setting_or(s.cf_user, "cfstore"@)
    } else {
        b is Mock
    }
}

fn setting_text<'a>(v: &'a Option<String>, default: &'a str) -> (r: &'a str)
    ensures
        r@ == setting_or(*v, default@),
{
    match v {
        Some(s) => s.as_str(),
        None => default,
    }
}

impl Config {
    /// Draws the configuration from its settings.
    pub fn from_settings(settings: &Settings) -> (c: Config)
        ensures
            c.server_ip@ == head_field(setting_or(settings.bind, default_bind()), ':'),
            c.server_port == bind_port(setting_or(settings.bind, default_bind())),
            c.server_key == ServerKey(12345),
            backend_matches(*settings, c.backend),
    {
        let bind = setting_text(&settings.bind, "0.0.0.0:5051");
        let (ip_text, rest) = split_first(bind, ':');
        let server_ip = String::from_str(ip_text);
        let port_text = match rest {
            Some(r) => split_first(r, ':').0,
            None => "5051",
        };
        let server_port = match parse_u16(port_text) {
            Some(p) => p,
            None => 5051,
        };
        let server_key = ServerKey(12345);
        let procs = setting_text(&settings.procs, "");
        proof {
            reveal_strlit("");
        }
        let backend = if contains_text(procs, "db") {
            let db_name = setting_text(&settings.db_name, "recceiver.db");
            let mut db_url = String::from_str("sqlite://");
            db_url.append(db_name);
            BackendConfig::Sqlite { db_url }
        } else if contains_text(procs, "cf") {
            let base_url = String::from_str(
                setting_text(&settings.cf_url, "http://localhost:8080/ChannelFinder"),
            );
            let username = String::from_str(setting_text(&settings.cf_user, "cfstore"));
            BackendConfig::ChannelFinder { base_url, username }
        } else {
            BackendConfig::Mock
        };
        proof {
            assert(setting_or(settings.procs, ""@) == setting_or(settings.procs, Seq::empty()));
        }
        Config { server_ip, server_port, server_key, backend }
    }
}

} // verus!
