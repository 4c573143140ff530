//! The server's settings from flags and environment.

use crate::paths::{join_path, path_join};
use crate::decimal::{decimal, push_decimal};
use crate::text::{chars_of, extend_str, str_eq, string_of};
use vstd::prelude::*;

verus! {

pub const DEFAULT_PORT: u16 = 5001;

/// The settings that the server starts with.
#[derive(Debug, Clone, PartialEq)]
pub struct Config {
    /// TCP port to listen on.
    pub port: u16,
    /// Address to bind; every address where absent.
    pub hostname: Option<String>,
    /// The database lives here.
    pub data_dir: String,
    /// The root below which every stack has its directory.
    pub stacks_dir: String,
    pub ssl_key: Option<String>,
    pub ssl_cert: Option<String>,
    pub ssl_key_passphrase: Option<String>,
    /// Gate for the main terminal.
    pub enable_console: bool,
}

impl Config {
    /// The address that the server binds where no host name is given.
    pub open spec fn any_address() -> Seq<char> {
        "0.0.0.0"@
    }

    /// `<host>:<port>`
    pub open spec fn bind_text(&self) -> Seq<char> {
        (match self.hostname {
            Some(h) => h@,
            None => Self::any_address(),
        }) + ":"@ + decimal(self.port as nat)
    }

    /// The settings used where neither flag nor environment says otherwise.
    pub fn defaults() -> (c: Config)
        ensures
            c.port == DEFAULT_PORT,
            c.hostname is None,
            c.data_dir@ == "./data/"@,
            c.stacks_dir@ == "/opt/stacks"@,
            c.ssl_key is None && c.ssl_cert is None && c.ssl_key_passphrase is None,
            !c.enable_console,
    {
        Config {
            port: DEFAULT_PORT,
            hostname: None,
            data_dir: "./data/".to_string(),
            stacks_dir: "/opt/stacks".to_string(),
            ssl_key: None,
            ssl_cert: None,
            ssl_key_passphrase: None,
            enable_console: false,
        }
    }

    /// The database file: `dockge.db` in the data directory.
    pub fn db_path(&self) -> (r: String)
        ensures
            r@ == path_join(self.data_dir@, "dockge.db"@),
    {
        join_path(self.data_dir.as_str(), "dockge.db")
    }

    /// Development mode is on exactly when the environment names it.
    pub fn is_dev(&self, node_env: Option<&str>) -> (r: bool)
        ensures
            r == (node_env matches Some(v) && v@ == "development"@),
    {
        match node_env {
            Some(v) => str_eq(v, "development"),
            None => false,
        }
    }

    /// TLS is served when both key and certificate are given.
    pub fn tls_enabled(&self) -> (r: bool)
        ensures
            r == (self.ssl_key is Some && self.ssl_cert is Some),
    {
        self.ssl_key.is_some() && self.ssl_cert.is_some()
    }

    /// The address to listen on.
    pub fn bind_addr(&self) -> (r: String)
        ensures
            r@ == self.bind_text(),
    {
        let mut v = match &self.hostname {
            Some(h) => chars_of(h.as_str()),
            None => chars_of("0.0.0.0"),
        };
        extend_str(&mut v, ":");
        push_decimal(&mut v, self.port as u64);
        string_of(&v)
    }
}

} // verus!
