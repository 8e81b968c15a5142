//! What the pipeline is configured with.

use crate::text::{push_char, render_int, render_u16};
use vstd::prelude::*;
use vstd::string::*;

verus! {

/// The configuration of the server.
#[derive(Debug)]
pub struct Config {
    /// The address to listen on.
    pub host: String,
    /// The port to listen on.
    pub port: u16,
    /// The number of slots.
    pub playerlimit: u8,
    /// The seconds after which a silent client is dropped.
    pub timeout: u64,
    /// The port for websocket clients, if there is one.
    pub websocket_port: Option<u16>,
}

/// How the server presents itself to the master directory, and where that
/// is.
#[derive(Debug)]
pub struct MasterServerConfig {
    pub ip: String,
    pub port: u16,
    pub name: String,
    pub description: String,
}

/// An address: the host, a colon, and the port in decimal.
pub open spec fn address_text(host: Seq<char>, port: u16) -> Seq<char> {
    host + seq![':'] + render_int(port as int)
}

/// An address: the host, a colon, and the port in decimal.
pub fn address(host: &str, port: u16) -> (r: String)
    ensures
        r@ == address_text(host@, port),
{
    let mut out = String::from_str(host);
    push_char(&mut out, ':');
    out.append(render_u16(port).as_str());
    assert(out@ =~= address_text(host@, port));
    out
}

impl Config {
    /// The address that the listener binds to.
    pub fn listen_address(&self) -> (r: String)
        ensures
            r@ == address_text(self.host@, self.port),
    {
        address(self.host.as_str(), self.port)
    }
}

impl MasterServerConfig {
    /// The address of the master directory.
    pub fn address(&self) -> (r: String)
        ensures
            r@ == address_text(self.ip@, self.port),
    {
        address(self.ip.as_str(), self.port)
    }
}

} // verus!
