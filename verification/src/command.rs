//! The commands that can be sent to the sensor.

use vstd::prelude::*;

verus! {

/// The bytes of the "read concentration" request.
pub open spec fn read_request() -> Seq<u8> {
    seq![0xffu8, 0x01u8, 0x86u8, 0x00u8, 0x00u8, 0x00u8, 0x00u8, 0x00u8, 0x79u8]
}

/// A request that the client can send.
#[derive(Clone, Copy, Debug, PartialEq, Eq, Structural)]
pub enum Command {
    /// Ask for the current CO2 concentration.
    Read,
}

impl Command {
    pub const BYTES_READ: [u8; 9] = [0xff, 0x01, 0x86, 0x00, 0x00, 0x00, 0x00, 0x00, 0x79];

    /// The bytes of this command on the wire.
    pub open spec fn wire(self) -> Seq<u8> {
        match self {
            Command::Read => read_request(),
        }
    }

    /// The fixed frame that encodes this command.
    pub fn into_bytes(self) -> (bytes: &'static [u8])
        ensures
            bytes@ == self.wire(),
    {
        match self {
            Self::Read => &Self::BYTES_READ,
        }
    }
}

} // verus!
