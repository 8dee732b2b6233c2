use vstd::prelude::*;
use vstd::string::StringExecFns;
use crate::config::Config;

verus! {

/// The command-line client's connection data: where requests go, and the key
/// they carry.  The HTTP machinery around it lives outside the library; this
/// holds and shapes the values every request is built from.
pub struct Client {
    pub base_url: String,
    pub api_key: String,
}

impl Client {
    /// Take the connection data out of the configuration.  Both values must
    /// be present; the command line refuses to run otherwise.
    pub fn new(config: Config) -> (c: Client)
        requires
            config.client.server is Some,
            config.client.api_key is Some,
        ensures
            c.base_url@ == config.client.server->0@,
            c.api_key@ == config.client.api_key->0@,
    {
        Client {
            base_url: config.client.server.unwrap(),
            api_key: config.client.api_key.unwrap(),
        }
    }

    /// The URL one request goes to: the base, a slash, and the path.
    pub fn request_url(&self, path: &str) -> (u: String)
        ensures
            u@ == self.base_url@ + "/"@ + path@,
    {
        let mut u = self.base_url.clone();
        u.append("/");
        u.append(path);
        u
    }

    /// The bearer credential every mutating request presents.
    pub fn bearer_token(&self) -> (t: String)
        ensures
            t@ == "Bearer "@ + self.api_key@,
    {
        let mut t = "Bearer ".to_owned();
        t.append(self.api_key.as_str());
        t
    }
}

} // verus!
