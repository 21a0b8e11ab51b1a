//! Typed handshake messages, as the wire codec hands them over.

use vstd::prelude::*;

verus! {

/// A protocol version as it appears on the wire.
#[derive(Clone, Copy, Debug, PartialEq, Eq, Structural)]
pub struct ProtocolVersion {
    pub major: u8,
    pub minor: u8,
}

impl ProtocolVersion {
    /// DTLS 1.0 on the wire.
    pub open spec fn dtls1_0_spec() -> ProtocolVersion {
        ProtocolVersion { major: 0xfe, minor: 0xff }
    }

    /// DTLS 1.2 on the wire.
    pub open spec fn dtls1_2_spec() -> ProtocolVersion {
        ProtocolVersion { major: 0xfe, minor: 0xfd }
    }

    /// DTLS 1.0 on the wire.
    #[verifier::when_used_as_spec(dtls1_0_spec)]
    pub fn dtls1_0() -> (version: ProtocolVersion)
        ensures
            version == ProtocolVersion::dtls1_0_spec(),
    {
        ProtocolVersion { major: 0xfe, minor: 0xff }
    }

    /// DTLS 1.2 on the wire.
    #[verifier::when_used_as_spec(dtls1_2_spec)]
    pub fn dtls1_2() -> (version: ProtocolVersion)
        ensures
            version == ProtocolVersion::dtls1_2_spec(),
    {
        ProtocolVersion { major: 0xfe, minor: 0xfd }
    }
}

/// The kind of a handshake message.
#[derive(Clone, Copy, Debug, PartialEq, Eq, Structural)]
pub enum HandshakeType {
    HelloRequest,
    ClientHello,
    ServerHello,
    HelloVerifyRequest,
    Certificate,
    ServerKeyExchange,
    CertificateRequest,
    ServerHelloDone,
    CertificateVerify,
    ClientKeyExchange,
    Finished,
    /// No kind at all: what a header holds until the record layer fills it in.
    Invalid,
}

impl HandshakeType {
    /// How many kinds there are.
    pub(crate) const COUNT: usize = 12;

    /// The position of this kind in the order of the declaration, from 0.
    pub(crate) open spec fn index_spec(self) -> int {
        match self {
            HandshakeType::HelloRequest => 0,
            HandshakeType::ClientHello => 1,
            HandshakeType::ServerHello => 2,
            HandshakeType::HelloVerifyRequest => 3,
            HandshakeType::Certificate => 4,
            HandshakeType::ServerKeyExchange => 5,
            HandshakeType::CertificateRequest => 6,
            HandshakeType::ServerHelloDone => 7,
            HandshakeType::CertificateVerify => 8,
            HandshakeType::ClientKeyExchange => 9,
            HandshakeType::Finished => 10,
            HandshakeType::Invalid => 11,
        }
    }

    /// The position of this kind in the order of the declaration, from 0.
    pub(crate) fn index(self) -> (i: usize)
        ensures
            i == self.index_spec(),
            i < HandshakeType::COUNT,
    {
        match self {
            HandshakeType::HelloRequest => 0,
            HandshakeType::ClientHello => 1,
            HandshakeType::ServerHello => 2,
            HandshakeType::HelloVerifyRequest => 3,
            HandshakeType::Certificate => 4,
            HandshakeType::ServerKeyExchange => 5,
            HandshakeType::CertificateRequest => 6,
            HandshakeType::ServerHelloDone => 7,
            HandshakeType::CertificateVerify => 8,
            HandshakeType::ClientKeyExchange => 9,
            HandshakeType::Finished => 10,
            HandshakeType::Invalid => 11,
        }
    }
}

/// The first message of a client: the version it asks for and the cookie it
/// echoes, empty on first contact.
#[derive(Debug, PartialEq, Eq)]
pub struct HandshakeMessageClientHello {
    pub version: ProtocolVersion,
    pub cookie: Vec<u8>,
}

/// The server's stateless answer to a first contact: the cookie to echo.
#[derive(Debug, PartialEq, Eq)]
pub struct HandshakeMessageHelloVerifyRequest {
    pub version: ProtocolVersion,
    pub cookie: Vec<u8>,
}

/// A decoded handshake message.
#[derive(Debug, PartialEq, Eq)]
pub enum HandshakeMessage {
    ClientHello(HandshakeMessageClientHello),
    HelloVerifyRequest(HandshakeMessageHelloVerifyRequest),
}

/// What a `HandshakeMessage` holds, as mathematical values.
pub enum HandshakeMessageView {
    ClientHello { version: ProtocolVersion, cookie: Seq<u8> },
    HelloVerifyRequest { version: ProtocolVersion, cookie: Seq<u8> },
}

impl HandshakeMessageView {
    /// The kind of this message.
    pub open spec fn handshake_type(self) -> HandshakeType {
        match self {
            HandshakeMessageView::ClientHello { .. } => HandshakeType::ClientHello,
            HandshakeMessageView::HelloVerifyRequest { .. } => HandshakeType::HelloVerifyRequest,
        }
    }
}

impl View for HandshakeMessage {
    type V = HandshakeMessageView;

    open spec fn view(&self) -> HandshakeMessageView {
        match self {
            HandshakeMessage::ClientHello(hello) => HandshakeMessageView::ClientHello {
                version: hello.version,
                cookie: hello.cookie@,
            },
            HandshakeMessage::HelloVerifyRequest(request) => HandshakeMessageView::HelloVerifyRequest {
                version: request.version,
                cookie: request.cookie@,
            },
        }
    }
}

impl Clone for HandshakeMessage {
    fn clone(&self) -> (copy: Self)
        ensures
            copy@ == self@,
    {
        match self {
            HandshakeMessage::ClientHello(hello) => HandshakeMessage::ClientHello(
                HandshakeMessageClientHello { version: hello.version, cookie: hello.cookie.clone() },
            ),
            HandshakeMessage::HelloVerifyRequest(request) => HandshakeMessage::HelloVerifyRequest(
                HandshakeMessageHelloVerifyRequest {
                    version: request.version,
                    cookie: request.cookie.clone(),
                },
            ),
        }
    }
}

impl HandshakeMessage {
    /// The kind of this message.
    pub fn handshake_type(&self) -> (typ: HandshakeType)
        ensures
            typ == self@.handshake_type(),
    {
        match self {
            HandshakeMessage::ClientHello(_) => HandshakeType::ClientHello,
            HandshakeMessage::HelloVerifyRequest(_) => HandshakeType::HelloVerifyRequest,
        }
    }
}

/// The header that goes before a handshake message on the wire. A flight
/// emits it unset; the record layer fills it in when it frames the message.
#[derive(Clone, Copy, Debug, PartialEq, Eq, Structural)]
pub struct HandshakeHeader {
    pub handshake_type: HandshakeType,
    pub length: u32,
    pub message_sequence: u16,
    pub fragment_offset: u32,
    pub fragment_length: u32,
}

impl HandshakeHeader {
    /// The header with nothing filled in.
    pub open spec fn unset() -> HandshakeHeader {
        HandshakeHeader {
            handshake_type: HandshakeType::Invalid,
            length: 0,
            message_sequence: 0,
            fragment_offset: 0,
            fragment_length: 0,
        }
    }
}

impl Default for HandshakeHeader {
    /// The header with nothing filled in.
    fn default() -> (header: HandshakeHeader)
        ensures
            header == HandshakeHeader::unset(),
    {
        HandshakeHeader {
            handshake_type: HandshakeType::Invalid,
            length: 0,
            message_sequence: 0,
            fragment_offset: 0,
            fragment_length: 0,
        }
    }
}

/// A handshake message with its header.
#[derive(Debug, PartialEq, Eq)]
pub struct Handshake {
    pub handshake_header: HandshakeHeader,
    pub handshake_message: HandshakeMessage,
}

/// What a `Handshake` holds, as mathematical values.
pub struct HandshakeView {
    pub handshake_header: HandshakeHeader,
    pub handshake_message: HandshakeMessageView,
}

impl View for Handshake {
    type V = HandshakeView;

    open spec fn view(&self) -> HandshakeView {
        HandshakeView {
            handshake_header: self.handshake_header,
            handshake_message: self.handshake_message@,
        }
    }
}

} // verus!
