//! Server configuration: the host name and port the listener binds to.
use vstd::prelude::*;
use crate::text::u64_to_string;

verus! {

/// The address a server listens on.
pub struct Config {
    pub host: String,
    pub port: u16,
}

impl Config {
    /// The `host:port` form handed to the listener.
    pub fn address(&self) -> (r: String)
        ensures
            r@ == self.host@ + ":"@ + crate::text::dec_digits(self.port as nat),
    {
        let mut out = self.host.clone();
        out.append(":");
        let port = u64_to_string(self.port as u64);
        out.append(port.as_str());
        out
    }
}

/// The default configuration: a local listener on port 8080.
pub fn server() -> (r: Config)
    ensures
        r.host@ == "localhost"@,
        r.port == 8080,
{
    let host = "localhost";
    let port: u16 = 8080;
    Config { host: host.to_owned(), port }
}

} // verus!
