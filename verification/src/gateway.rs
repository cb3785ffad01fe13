//! Which ports are opened on the gateway.
use vstd::prelude::*;
use vstd::string::*;

verus! {

/// Why no port is opened.
#[derive(Clone, Copy, Debug, PartialEq, Eq, Structural)]
pub enum NatError {
    /// The local address is an IPv6 address.
    Ipv6NotSupported,
}

impl NatError {
    /// The error in words.
    pub open spec fn text(self) -> Seq<char> {
        "IPv6 mapping is not yet supported for Primus-Grade nodes"@
    }

    /// The error in words.
    pub fn message(&self) -> (out: String)
        ensures
            out@ == self.text(),
    {
        match self {
            NatError::Ipv6NotSupported => String::from_str(
                "IPv6 mapping is not yet supported for Primus-Grade nodes",
            ),
        }
    }
}

/// One UDP port to open.
#[derive(Clone, Copy, Debug)]
pub struct PortMapping {
    pub port: u16,
    /// Seconds that the mapping lasts; zero for ever.
    pub lease: u32,
    pub description: &'static str,
}

/// Makes the node reachable from outside through the gateway.
pub struct NatService;

impl NatService {
    /// The mappings that make a node with QUIC port `port` reachable: that
    /// port, and the next one for WebTransport. Only IPv4 gateways are
    /// supported.
    pub fn open_world(port: u16, local_is_v4: bool) -> (out: Result<
        (PortMapping, PortMapping),
        NatError,
    >)
        requires
            port < u16::MAX,
        ensures
            match out {
                Ok((quic, web)) => local_is_v4 && quic.port == port && quic.lease == 0
                    && quic.description@ == "Primus-Node-QUIC"@ && web.port == port + 1 && web.lease
                    == 0 && web.description@ == "Primus-Node-WebTransport"@,
                Err(e) => !local_is_v4 && e == NatError::Ipv6NotSupported,
            },
    {
        if !local_is_v4 {
            return Err(NatError::Ipv6NotSupported);
        }
        Ok(
            (
                PortMapping { port, lease: 0, description: "Primus-Node-QUIC" },
                PortMapping { port: port + 1, lease: 0, description: "Primus-Node-WebTransport" },
            ),
        )
    }
}

} // verus!
