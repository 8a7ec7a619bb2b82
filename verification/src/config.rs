//! The server's configuration and its defaults.
use vstd::prelude::*;

verus! {

/// Server configuration. Paths are kept as text.
#[derive(Debug, Clone)]
pub struct ServerConfig {
    /// The address to bind.
    pub host: String,
    /// The port to bind.
    pub port: u16,
    /// The TLS certificate (PEM).
    pub cert_path: String,
    /// The TLS private key (PEM).
    pub key_path: String,
    /// The users file.
    pub users_path: String,
    /// The root directory of the served files.
    pub root_dir: String,
    /// Whether a self-signed certificate is made when none is found.
    pub auto_generate_cert: bool,
    /// The most connections served at once.
    pub max_connections: usize,
}

pub fn default_host() -> (s: String)
    ensures
        s@ == "0.0.0.0"@,
{
    String::from_str("0.0.0.0")
}

pub fn default_port() -> (p: u16)
    ensures
        p == 5000,
{
    5000
}

pub fn default_cert_path() -> (s: String)
    ensures
        s@ == "config/cert.pem"@,
{
    String::from_str("config/cert.pem")
}

pub fn default_key_path() -> (s: String)
    ensures
        s@ == "config/key.pem"@,
{
    String::from_str("config/key.pem")
}

pub fn default_users_path() -> (s: String)
    ensures
        s@ == "config/users.toml"@,
{
    String::from_str("config/users.toml")
}

pub fn default_root_dir() -> (s: String)
    ensures
        s@ == "./ftp_root"@,
{
    String::from_str("./ftp_root")
}

pub fn default_true() -> (b: bool)
    ensures
        b,
{
    true
}

pub fn default_max_connections() -> (n: usize)
    ensures
        n == 100,
{
    100
}

impl Default for ServerConfig {
    fn default() -> (c: Self)
        ensures
            c.host@ == "0.0.0.0"@,
            c.port == 5000,
            c.cert_path@ == "config/cert.pem"@,
            c.key_path@ == "config/key.pem"@,
            c.users_path@ == "config/users.toml"@,
            c.root_dir@ == "./ftp_root"@,
            c.auto_generate_cert,
            c.max_connections == 100,
    {
        ServerConfig {
            host: default_host(),
            port: default_port(),
            cert_path: default_cert_path(),
            key_path: default_key_path(),
            users_path: default_users_path(),
            root_dir: default_root_dir(),
            auto_generate_cert: default_true(),
            max_connections: default_max_connections(),
        }
    }
}

} // verus!
