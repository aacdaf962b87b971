//! Mole's saved choice: which strategy to apply, which resolver to use, whether
//! to hold QUIC back, and which blocked site the service watches.
//!
//! The probe writes it once it finds a winner; `apply` and the service read it.
//! Reading and writing the file happen outside this crate.

use vstd::prelude::*;
use vstd::string::StringExecFns;

verus! {

/// The saved configuration.
#[derive(Clone, Debug, PartialEq, Eq)]
pub struct Config {
    /// A strategy label, such as `fakesplit:ttl6:sni`.
    pub strategy: String,
    /// The resolver's name: `Cloudflare` or `Google`.
    pub resolver: String,
    /// Hold QUIC back so browsers fall onto TCP. Off unless asked for.
    pub block_quic: bool,
    /// The blocked site the winning strategy was found on, which the service
    /// watches. Empty means the default site.
    pub canary: String,
}

impl Config {
    /// A configuration for `strategy` and `resolver`, QUIC allowed, no site.
    pub fn new(strategy: &str, resolver: &str) -> (r: Config)
        ensures
            r.strategy@ == strategy@,
            r.resolver@ == resolver@,
            !r.block_quic,
            r.canary@ == Seq::<char>::empty(),
    {
        Config {
            strategy: String::from_str(strategy),
            resolver: String::from_str(resolver),
            block_quic: false,
            canary: String::new(),
        }
    }

    /// The same configuration, holding QUIC back or not.
    pub fn quic(self, on: bool) -> (r: Config)
        ensures
            r.block_quic == on,
            r.strategy == self.strategy,
            r.resolver == self.resolver,
            r.canary == self.canary,
    {
        let mut c = self;
        c.block_quic = on;
        c
    }

    /// The same configuration, watching `host`.
    pub fn canary(self, host: &str) -> (r: Config)
        ensures
            r.canary@ == host@,
            r.strategy == self.strategy,
            r.resolver == self.resolver,
            r.block_quic == self.block_quic,
    {
        let mut c = self;
        c.canary = String::from_str(host);
        c
    }
}

} // verus!
