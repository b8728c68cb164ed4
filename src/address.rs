//! Addresses of the transports that carry the link.

use vstd::prelude::*;

verus! {

broadcast use vstd::string::group_string_axioms;

/// Default path of the Unix-domain socket.
pub const DEFAULT_SOCKET_PATH: &'static str = "/tmp/agon-vdp.sock";

/// A socket address: a Unix-domain socket path or a TCP `host:port`.
#[derive(Debug, Clone)]
pub enum SocketAddr {
    Unix(String),
    Tcp(String),
}

impl SocketAddr {
    /// The address of a Unix-domain socket at `path`.
    pub fn unix(path: &str) -> (r: Self)
        ensures
            r matches SocketAddr::Unix(p) && p@ == path@,
    {
        SocketAddr::Unix(path.to_string())
    }

    /// The address of a TCP endpoint `host:port`.
    pub fn tcp(addr: &str) -> (r: Self)
        ensures
            r matches SocketAddr::Tcp(a) && a@ == addr@,
    {
        SocketAddr::Tcp(addr.to_string())
    }

    /// The path or `host:port`, as written.
    pub fn as_str(&self) -> (r: &str)
        ensures
            r@ == match self {
                SocketAddr::Unix(p) => p@,
                SocketAddr::Tcp(a) => a@,
            },
    {
        match self {
            SocketAddr::Unix(p) => p.as_str(),
            SocketAddr::Tcp(a) => a.as_str(),
        }
    }
}

} // verus!
