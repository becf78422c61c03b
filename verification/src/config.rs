//! Service configuration and the parameters of HTTP queries.

use vstd::prelude::*;

verus! {

/// Where the service listens and which exchange endpoint it uses.
#[derive(Debug, Clone)]
pub struct Config {
    pub service_host: String,
    pub service_port: String,
    pub deribit_url: String,
}

impl Config {
    /// The listening address, `host:port`.
    pub fn address(&self) -> (r: String)
        ensures
            r@ == self.service_host@ + seq![':'] + self.service_port@,
    {
        let mut out = self.service_host.clone();
        out.append(":");
        out.append(self.service_port.as_str());
        proof {
            reveal_strlit(":");
        }
        out
    }
}

/// Query parameters of a book request.
#[derive(Debug, Clone, Copy, PartialEq, Eq, Structural)]
pub struct BookQuery {
    pub depth: Option<u32>,
}

/// The currency whose instruments are listed: the one asked for, else BTC.
pub fn instruments_currency(requested: Option<&str>) -> (r: String)
    ensures
        match requested {
            Some(c) => r@ == c@,
            None => r@ == "BTC"@,
        },
{
    match requested {
        Some(c) => c.to_owned(),
        None => "BTC".to_owned(),
    }
}

} // verus!
