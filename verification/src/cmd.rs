//! The command line's shape: which role to run, and with what settings.
use vstd::prelude::*;

verus! {

/// The parsed command line.
pub struct Cmd {
    pub command: SubCommand,
}

/// The two roles a process can run as.
pub enum SubCommand {
    /// Run as server (admin): listen for join requests and relay messages.
    Server {
        /// Address to bind.
        addr: String,
    },
    /// Run as client: connect to a server and join the group.
    Client {
        /// Server address.
        addr: String,
        /// Username for this client.
        username: String,
    },
}

/// The address either role uses when none is given.
pub fn default_addr() -> (r: String)
    ensures
        r@ == "127.0.0.1:8080"@,
{
    "127.0.0.1:8080".to_owned()
}

/// The username a client uses when none is given.
pub fn default_username() -> (r: String)
    ensures
        r@ == "Anonymous"@,
{
    "Anonymous".to_owned()
}

} // verus!
