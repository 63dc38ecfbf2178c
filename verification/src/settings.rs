//! Application settings: the plain values the process runs with. Loading
//! them from a file or the environment is the surrounding program's job;
//! this module holds the defaults and the startup banner.

use vstd::prelude::*;
use vstd::string::StringExecFns;

use crate::numfmt::{dec_rep, u16_to_dec};

verus! {

/// The port the server binds when nothing overrides it.
pub const DEFAULT_PORT: u16 = 8000;

pub struct Settings {
    pub debug: bool,
    pub port: u16,
    pub host: String,
    pub human_logs: bool,
    pub statsd_label: String,
    pub statsd_host: Option<String>,
    pub statsd_port: u16,
    pub actix_keep_alive: Option<u64>,
}

impl Default for Settings {
    fn default() -> (r: Settings)
        ensures
            r.debug == false,
            r.port == DEFAULT_PORT,
            r.host@ == "127.0.0.1"@,
            r.human_logs == false,
            r.statsd_label@ == "skeleton"@,
            r.statsd_host is None,
            r.statsd_port == 8125,
            r.actix_keep_alive is None,
    {
        Settings {
            debug: false,
            port: DEFAULT_PORT,
            host: String::from_str("127.0.0.1"),
            human_logs: false,
            statsd_label: String::from_str("skeleton"),
            statsd_host: None,
            statsd_port: 8125,
            actix_keep_alive: None,
        }
    }
}

/// What the startup banner says: the scheme, the host, and the port.
pub open spec fn spec_banner(s: Settings) -> Seq<char> {
    "http://"@ + s.host@ + ":"@ + dec_rep(s.port as nat)
}

impl Settings {
    /// A simple banner for display of certain settings at startup.
    pub fn banner(&self) -> (r: String)
        ensures
            r@ == spec_banner(*self),
    {
        String::from_str("http://").concat(self.host.as_str()).concat(":").concat(
            u16_to_dec(self.port).as_str(),
        )
    }
}

} // verus!
