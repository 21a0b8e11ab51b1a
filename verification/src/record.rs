//! Records and packets: what a flight hands to the transport.

use vstd::prelude::*;
use crate::alert::Alert;
use crate::handshake::{Handshake, HandshakeView, ProtocolVersion};

verus! {

/// The kind of content that a record carries.
#[derive(Clone, Copy, Debug, PartialEq, Eq, Structural)]
pub enum ContentType {
    ChangeCipherSpec,
    Alert,
    Handshake,
    ApplicationData,
    /// No kind at all: what a header holds until the record layer fills it in.
    Invalid,
}

/// The header of a record. A flight fixes the protocol version and leaves the
/// rest unset; the record layer fills it in when it frames the record.
#[derive(Clone, Copy, Debug, PartialEq, Eq, Structural)]
pub struct RecordLayerHeader {
    pub content_type: ContentType,
    pub protocol_version: ProtocolVersion,
    pub epoch: u16,
    pub sequence_number: u64,
    pub content_len: u16,
}

impl RecordLayerHeader {
    /// The header with nothing filled in.
    pub open spec fn unset() -> RecordLayerHeader {
        RecordLayerHeader {
            content_type: ContentType::Invalid,
            protocol_version: ProtocolVersion { major: 0, minor: 0 },
            epoch: 0,
            sequence_number: 0,
            content_len: 0,
        }
    }
}

impl Default for RecordLayerHeader {
    /// The header with nothing filled in.
    fn default() -> (header: RecordLayerHeader)
        ensures
            header == RecordLayerHeader::unset(),
    {
        RecordLayerHeader {
            content_type: ContentType::Invalid,
            protocol_version: ProtocolVersion { major: 0, minor: 0 },
            epoch: 0,
            sequence_number: 0,
            content_len: 0,
        }
    }
}

/// The content of a record: a handshake message, or one of the other kinds.
#[derive(Debug, PartialEq, Eq)]
pub enum Content {
    ChangeCipherSpec,
    Alert(Alert),
    Handshake(Handshake),
    ApplicationData(Vec<u8>),
}

/// What a `Content` holds, as mathematical values.
pub enum ContentView {
    ChangeCipherSpec,
    Alert(Alert),
    Handshake(HandshakeView),
    ApplicationData(Seq<u8>),
}

impl View for Content {
    type V = ContentView;

    open spec fn view(&self) -> ContentView {
        match self {
            Content::ChangeCipherSpec => ContentView::ChangeCipherSpec,
            Content::Alert(alert) => ContentView::Alert(*alert),
            Content::Handshake(handshake) => ContentView::Handshake(handshake@),
            Content::ApplicationData(data) => ContentView::ApplicationData(data@),
        }
    }
}

/// A record: a header and the content it frames.
#[derive(Debug, PartialEq, Eq)]
pub struct RecordLayer {
    pub record_layer_header: RecordLayerHeader,
    pub content: Content,
}

/// What a `RecordLayer` holds, as mathematical values.
pub struct RecordLayerView {
    pub record_layer_header: RecordLayerHeader,
    pub content: ContentView,
}

impl View for RecordLayer {
    type V = RecordLayerView;

    open spec fn view(&self) -> RecordLayerView {
        RecordLayerView {
            record_layer_header: self.record_layer_header,
            content: self.content@,
        }
    }
}

/// An outbound unit: a record, whether it has to be encrypted under the
/// negotiated keys, and whether the local record sequence number has to start
/// over because the record opens a new epoch.
#[derive(Debug, PartialEq, Eq)]
pub struct Packet {
    pub record: RecordLayer,
    pub should_encrypt: bool,
    pub reset_local_sequence_number: bool,
}

/// What a `Packet` holds, as mathematical values.
pub struct PacketView {
    pub record: RecordLayerView,
    pub should_encrypt: bool,
    pub reset_local_sequence_number: bool,
}

impl View for Packet {
    type V = PacketView;

    open spec fn view(&self) -> PacketView {
        PacketView {
            record: self.record@,
            should_encrypt: self.should_encrypt,
            reset_local_sequence_number: self.reset_local_sequence_number,
        }
    }
}

/// What a list of packets holds, packet by packet.
pub open spec fn packets_view(packets: Seq<Packet>) -> Seq<PacketView> {
    packets.map_values(|packet: Packet| packet@)
}

} // verus!
