use vstd::prelude::*;
use crate::text::{decimal, decimal_spec};

verus! {

/// One way in which a node is reached.
#[derive(Debug, Clone)]
pub enum Connection {
    Tcp { local_host: String, local_port: u16 },
    Udp { local_host: String, local_port: u16, remote_host: String, remote_port: u16 },
    Serial { path: String, baud: u32 },
    LoRa { freq: u32, bw: u32, sf: u8, tx_power: u8 },
}

/// Where a node's private identity comes from.
pub enum PrivateIdentity {
    FromString(String),
    FromHexString(String),
    Rand,
}

/// The names under which a destination is announced.
pub struct DestinationConfig {
    pub app_name: String,
    pub application_space: String,
}

/// What a node is started with.
pub struct NodeSettings {
    pub interfaces: Vec<Connection>,
    pub private_identity: PrivateIdentity,
}

/// What the record store refuses.
#[derive(Debug, Clone, Copy, PartialEq, Eq, Structural)]
pub enum RNSDNSERRORS {
    AlreadyExists,
}

impl Connection {
    /// The connection as it is written in a node's address: the kind, a
    /// semicolon, and the fields with colons between them.
    pub open spec fn text(&self) -> Seq<char> {
        match self {
            Connection::Tcp { local_host, local_port } => "Tcp;"@ + local_host@ + ":"@
                + decimal_spec(*local_port as nat),
            Connection::Udp { local_host, local_port, remote_host, remote_port } => "Udp;"@
                + local_host@ + ":"@ + decimal_spec(*local_port as nat) + ":"@ + remote_host@
                + ":"@ + decimal_spec(*remote_port as nat),
            Connection::Serial { path, baud } => "Serial;"@ + path@ + ":"@ + decimal_spec(
                *baud as nat,
            ),
            Connection::LoRa { freq, bw, sf, tx_power } => "LoRa;"@ + decimal_spec(*freq as nat)
                + ":"@ + decimal_spec(*bw as nat) + ":"@ + decimal_spec(*sf as nat) + ":"@
                + decimal_spec(*tx_power as nat),
        }
    }

    pub fn new_tcp(local_host: String, local_port: u16) -> (c: Self)
        ensures
            c == (Connection::Tcp { local_host, local_port }),
    {
        Connection::Tcp { local_host, local_port }
    }

    pub fn new_udp(
        local_host: String,
        local_port: u16,
        remote_host: String,
        remote_port: u16,
    ) -> (c: Self)
        ensures
            c == (Connection::Udp { local_host, local_port, remote_host, remote_port }),
    {
        Connection::Udp { local_host, local_port, remote_host, remote_port }
    }

    /// The connection as it is written in a node's address.
    pub fn to_string(&self) -> (s: String)
        ensures
            s@ == self.text(),
    {
        match self {
            Connection::Tcp { local_host, local_port } => {
                let mut s = String::from_str("Tcp;");
                s.append(local_host.as_str());
                s.append(":");
                s.append(decimal(*local_port as u64).as_str());
                s
            },
            Connection::Udp { local_host, local_port, remote_host, remote_port } => {
                let mut s = String::from_str("Udp;");
                s.append(local_host.as_str());
                s.append(":");
                s.append(decimal(*local_port as u64).as_str());
                s.append(":");
                s.append(remote_host.as_str());
                s.append(":");
                s.append(decimal(*remote_port as u64).as_str());
                s
            },
            Connection::Serial { path, baud } => {
                let mut s = String::from_str("Serial;");
                s.append(path.as_str());
                s.append(":");
                s.append(decimal(*baud as u64).as_str());
                s
            },
            Connection::LoRa { freq, bw, sf, tx_power } => {
                let mut s = String::from_str("LoRa;");
                s.append(decimal(*freq as u64).as_str());
                s.append(":");
                s.append(decimal(*bw as u64).as_str());
                s.append(":");
                s.append(decimal(*sf as u64).as_str());
                s.append(":");
                s.append(decimal(*tx_power as u64).as_str());
                s
            },
        }
    }
}

impl Default for PrivateIdentity {
    fn default() -> (p: Self)
        ensures
            p is Rand,
    {
        PrivateIdentity::Rand
    }
}

impl DestinationConfig {
    pub fn new(app_name: String, application_space: String) -> (d: Self)
        ensures
            d.app_name == app_name,
            d.application_space == application_space,
    {
        DestinationConfig { app_name, application_space }
    }
}

impl NodeSettings {
    pub fn new(interfaces: Vec<Connection>, private_identity: PrivateIdentity) -> (n: Self)
        ensures
            n.interfaces == interfaces,
            n.private_identity == private_identity,
    {
        NodeSettings { interfaces, private_identity }
    }
}

} // verus!
