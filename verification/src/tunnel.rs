//! The record of an established tunnel.

use vstd::prelude::*;

verus! {

/// An established tunnel as its owner sees it: where the server is, which
/// local port is exposed, and which public port the server assigned.
pub struct Tunnel {
    remote_addr: String,
    local_port: u16,
    assigned_port: u16,
}

impl Tunnel {
    /// The address of the server.
    pub closed spec fn spec_remote_addr(&self) -> Seq<char> {
        self.remote_addr@
    }

    /// The local port that the tunnel exposes.
    pub closed spec fn spec_local_port(&self) -> u16 {
        self.local_port
    }

    /// The public port that the server assigned.
    pub closed spec fn spec_remote_port(&self) -> u16 {
        self.assigned_port
    }

    /// The record of a tunnel from `local_port` to `assigned_port` on the
    /// server at `remote_addr`.
    pub fn new(remote_addr: String, local_port: u16, assigned_port: u16) -> (r: Self)
        ensures
            r.spec_remote_addr() == remote_addr@,
            r.spec_local_port() == local_port,
            r.spec_remote_port() == assigned_port,
    {
        Tunnel { remote_addr, local_port, assigned_port }
    }

    /// The public port that the server assigned.
    pub fn remote_port(&self) -> (r: u16)
        ensures
            r == self.spec_remote_port(),
    {
        self.assigned_port
    }

    /// The address of the server.
    pub fn remote_addr(&self) -> (r: &str)
        ensures
            r@ == self.spec_remote_addr(),
    {
        self.remote_addr.as_str()
    }

    /// The local port that the tunnel exposes.
    pub fn local_port(&self) -> (r: u16)
        ensures
            r == self.spec_local_port(),
    {
        self.local_port
    }
}

} // verus!
