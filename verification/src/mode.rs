//! The two roles a process can start in.

use vstd::prelude::*;

verus! {

/// The argument that starts a process as the server.
pub const SERVER: &'static str = "server";

/// The role of a process.
#[derive(Debug, Clone, Copy, PartialEq, Eq, Structural)]
pub enum Mode {
    /// Listen for connections and relay what they send.
    Server,
    /// Connect to the server, send what the operator types, show what arrives.
    Client,
}

/// Picks the role from the arguments of the process, of which the first is the
/// program's own name: the server where the next one is `server`, the client
/// otherwise.
pub fn select_mode(args: &Vec<String>) -> (mode: Mode)
    ensures
        mode == if args@.len() > 1 && args@[1]@ == SERVER@ {
            Mode::Server
        } else {
            Mode::Client
        },
{
    if args.len() > 1 && args[1] == SERVER.to_owned() {
        Mode::Server
    } else {
        Mode::Client
    }
}

} // verus!
