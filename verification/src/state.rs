//! What one handshake attempt carries from flight to flight, and what it was
//! configured with.

use vstd::prelude::*;
use crate::handshake::ProtocolVersion;

verus! {

/// The mutable record of one handshake attempt. Each attempt has one of its
/// own, handed to every flight by mutable reference.
#[derive(Debug, PartialEq, Eq)]
pub struct HandshakeState {
    /// The sequence number of the next handshake message to expect.
    pub handshake_receive_sequence: isize,
    /// The sequence number of the next handshake message to send.
    pub handshake_send_sequence: isize,
    /// The cookie that was issued to the peer, which it has to echo.
    pub cookie: Vec<u8>,
}

/// What a `HandshakeState` holds, as mathematical values.
pub struct HandshakeStateView {
    pub handshake_receive_sequence: int,
    pub handshake_send_sequence: int,
    pub cookie: Seq<u8>,
}

impl View for HandshakeState {
    type V = HandshakeStateView;

    open spec fn view(&self) -> HandshakeStateView {
        HandshakeStateView {
            handshake_receive_sequence: self.handshake_receive_sequence as int,
            handshake_send_sequence: self.handshake_send_sequence as int,
            cookie: self.cookie@,
        }
    }
}

impl HandshakeState {
    /// The state of an attempt that has exchanged nothing yet, with the cookie
    /// that was issued for it.
    pub fn new(cookie: Vec<u8>) -> (state: HandshakeState)
        ensures
            state@ == (HandshakeStateView {
                handshake_receive_sequence: 0,
                handshake_send_sequence: 0,
                cookie: cookie@,
            }),
    {
        HandshakeState { handshake_receive_sequence: 0, handshake_send_sequence: 0, cookie }
    }
}

/// The configuration of a handshake.
#[derive(Clone, Copy, Debug, PartialEq, Eq, Structural)]
pub struct HandshakeConfig {
    /// The epoch under which the first `ClientHello` has to arrive.
    pub initial_epoch: u16,
    /// The one protocol version that is accepted and spoken.
    pub protocol_version: ProtocolVersion,
}

impl Default for HandshakeConfig {
    /// Epoch 0 and DTLS 1.2.
    fn default() -> (cfg: HandshakeConfig)
        ensures
            cfg == (HandshakeConfig {
                initial_epoch: 0,
                protocol_version: ProtocolVersion::dtls1_2_spec(),
            }),
    {
        HandshakeConfig { initial_epoch: 0, protocol_version: ProtocolVersion::dtls1_2() }
    }
}

} // verus!
