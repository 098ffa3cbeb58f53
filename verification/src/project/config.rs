//! The model of `nucleus/nucleus.toml`, the project configuration.

use vstd::prelude::*;

verus! {

/// The whole project configuration.
#[derive(Clone, Debug)]
pub struct NucleusConfig {
    pub site: SiteConfig,
    pub admin: AdminConfig,
    pub build: BuildConfig,
    pub serve: ServeConfig,
    pub tls: Option<TlsConfig>,
}

/// The `[site]` table.
#[derive(Clone, Debug)]
pub struct SiteConfig {
    pub name: String,
}

/// The `[admin]` table; `path` defaults to `default_admin_path()`.
#[derive(Clone, Debug)]
pub struct AdminConfig {
    pub path: String,
}

/// The `[build]` table: the command that builds the site and its output directory.
#[derive(Clone, Debug)]
pub struct BuildConfig {
    pub command: String,
    pub out_dir: String,
}

/// The `[serve]` table; `port` defaults to `default_port()`.
#[derive(Clone, Copy, Debug)]
pub struct ServeConfig {
    pub port: u16,
}

/// The optional `[tls]` table.
#[derive(Debug)]
pub struct TlsConfig {
    pub enabled: bool,
    pub strategy: TlsStrategy,
    pub domain: Option<String>,
    pub certificate_file: Option<String>,
    pub private_key_file: Option<String>,
}

/// How certificates are obtained.
#[derive(Clone, Copy, Debug, PartialEq, Eq, Structural)]
pub enum TlsStrategy {
    Letsencrypt,
    File,
}

fn clone_opt_string(o: &Option<String>) -> (r: Option<String>)
    ensures
        r == *o,
{
    match o {
        Some(s) => Some(s.clone()),
        None => None,
    }
}

impl Clone for TlsConfig {
    fn clone(&self) -> (r: Self)
        ensures
            r == *self,
    {
        TlsConfig {
            enabled: self.enabled,
            strategy: self.strategy,
            domain: clone_opt_string(&self.domain),
            certificate_file: clone_opt_string(&self.certificate_file),
            private_key_file: clone_opt_string(&self.private_key_file),
        }
    }
}

/// The admin path used when the configuration names none.
pub fn default_admin_path() -> (p: String)
    ensures
        p@ == "/nucleus"@,
{
    "/nucleus".to_owned()
}

/// The port used when the configuration names none.
pub fn default_port() -> (p: u16)
    ensures
        p == 3000,
{
    3000
}

} // verus!
