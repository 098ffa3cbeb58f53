//! The decisions taken when a server starts: whether a development server
//! is proxied and on which port, how it is started, what the startup banner
//! and the health check say.

use vstd::prelude::*;
use crate::server::FrontendMode;
use crate::text::{decimal, decimal_string, push_str_chars, string_of};

verus! {

/// The port the framework's development server is started on.
pub const DEV_PROXY_PORT: u16 = 9889;

/// The port of the development server to proxy to: there is one exactly
/// when the front end is proxied.
pub fn dev_proxy_port(frontend: &Option<FrontendMode>) -> (port: Option<u16>)
    ensures
        port == (if frontend matches Some(FrontendMode::Proxy(_)) {
            Some(DEV_PROXY_PORT)
        } else {
            None::<u16>
        }),
{
    match frontend {
        Some(FrontendMode::Proxy(_)) => Some(DEV_PROXY_PORT),
        _ => None,
    }
}

/// The arguments given to `npm` to start the development server on `port`.
pub fn framework_server_args(port: u16) -> (args: Vec<String>)
    ensures
        args@.len() == 5,
        args@[0]@ == "run"@,
        args@[1]@ == "dev"@,
        args@[2]@ == "--"@,
        args@[3]@ == "--port"@,
        args@[4]@ == decimal(port as nat),
{
    let mut args: Vec<String> = Vec::new();
    args.push("run".to_owned());
    args.push("dev".to_owned());
    args.push("--".to_owned());
    args.push("--port".to_owned());
    args.push(decimal_string(port as u64));
    args
}

/// The value of the `Server` header on every response.
pub fn server_header() -> (h: String)
    ensures
        h@ == "nucleus-cms/1.0"@,
{
    "nucleus-cms/1.0".to_owned()
}

/// The body of the health check's answer for a site named `site_name`.
pub fn health_greeting(site_name: &str) -> (g: String)
    ensures
        g@ == "Hello "@ + site_name@,
{
    let mut v: Vec<char> = Vec::new();
    push_str_chars(&mut v, "Hello ");
    push_str_chars(&mut v, site_name);
    string_of(&v)
}

/// The health check's answer for a site named `site_name`: status `200`
/// and the greeting.
pub fn health_answer(site_name: &str) -> (a: (u16, String))
    ensures
        a.0 == 200,
        a.1@ == "Hello "@ + site_name@,
{
    (200, health_greeting(site_name))
}

/// The address of the site on this machine.
pub open spec fn site_url_text(port: u16) -> Seq<char> {
    "http://localhost:"@ + decimal(port as nat)
}

/// The URL of the site shown at startup.
pub fn site_url(port: u16) -> (u: String)
    ensures
        u@ == site_url_text(port),
{
    let mut v: Vec<char> = Vec::new();
    push_str_chars(&mut v, "http://localhost:");
    let p = decimal_string(port as u64);
    push_str_chars(&mut v, &p);
    string_of(&v)
}

/// The URL of the admin interface shown at startup.
pub fn admin_url(port: u16, admin_path: &str) -> (u: String)
    ensures
        u@ == site_url_text(port) + admin_path@,
{
    let mut v: Vec<char> = Vec::new();
    let s = site_url(port);
    push_str_chars(&mut v, &s);
    push_str_chars(&mut v, admin_path);
    string_of(&v)
}

} // verus!
