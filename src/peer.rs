use vstd::prelude::*;

verus! {

/// The remote endpoint of an accepted socket, which identifies its connection.
/// Two values are equal exactly when every field is, as for a socket address.
#[derive(Clone, Copy, Debug, PartialEq, Eq, Structural)]
pub enum PeerAddr {
    V4 { ip: u32, port: u16 },
    V6 { ip6: u128, port: u16, flowinfo: u32, scope_id: u32 },
}

impl PeerAddr {
    /// The IPv4 endpoint `a.b.c.d:port`.
    pub fn v4(octets: [u8; 4], port: u16) -> (r: PeerAddr)
        ensures
            r == (PeerAddr::V4 {
                ip: (octets[0] * 0x0100_0000 + octets[1] * 0x1_0000 + octets[2] * 0x100
                    + octets[3]) as u32,
                port,
            }),
    {
        let ip: u32 = (octets[0] as u32) * 0x0100_0000 + (octets[1] as u32) * 0x1_0000
            + (octets[2] as u32) * 0x100 + octets[3] as u32;
        PeerAddr::V4 { ip, port }
    }
}

} // verus!
