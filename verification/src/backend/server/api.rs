//! The server as a program starts it: where it listens and what it knows.

use vstd::prelude::*;
use crate::backend::server::Server as BasicServer;
use crate::decimal::{decimal, usize_to_string};

verus! {

/// A server: the address it listens on and its accounts.
pub struct Server {
    address: String,
    server: BasicServer,
}

/// The address of the server on `port`: `127.0.0.1:port`.
pub open spec fn local_address(port: usize) -> Seq<char> {
    seq!['1', '2', '7', '.', '0', '.', '0', '.', '1', ':'] + decimal(port as nat)
}

impl Server {
    /// A server on `port` of this machine, with no accounts yet.
    pub fn new(port: usize) -> (s: Server)
        ensures
            s.address()@ == local_address(port),
            s.state()@.wf(),
            s.state()@.passwords == Map::<usize, Seq<char>>::empty(),
            s.state()@.users == 1,
    {
        proof {
            reveal_strlit("127.0.0.1:");
        }
        let mut address = String::from_str("127.0.0.1:");
        let port_text = usize_to_string(port);
        address.append(port_text.as_str());
        assert(address@ =~= local_address(port));
        Server { address, server: BasicServer::new() }
    }

    pub closed spec fn address(&self) -> String {
        self.address
    }

    pub closed spec fn state(&self) -> BasicServer {
        self.server
    }

    /// The address to listen on.
    pub fn listen_address(&self) -> (r: &String)
        ensures
            r == self.address(),
    {
        &self.address
    }

    /// The server's accounts and decisions, to be driven by the listener.
    pub fn into_state(self) -> (r: BasicServer)
        ensures
            r == self.state(),
    {
        self.server
    }
}

} // verus!
