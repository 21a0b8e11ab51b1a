//! The first server flights: waiting for first contact, and the cookie
//! exchange that gates the way into the key negotiation.
//!
//! A flight's parse reads the cache and decides where the handshake goes.
//! `Ok` with the flight that was parsing means that nothing is decided yet:
//! stay, and send that flight's packets again. `Err` carries the alert that
//! the peer has to be sent, if any, and the local error, if any.

use vstd::prelude::*;
use crate::alert::{Alert, AlertDescription};
use crate::cache::{CacheEntryView, HandshakeCache, HandshakeCachePullRule};
use crate::error::Error;
use crate::handshake::{
    Handshake, HandshakeHeader, HandshakeMessage, HandshakeMessageHelloVerifyRequest,
    HandshakeMessageView, HandshakeType, HandshakeView,
};
use crate::pull::{
    accepts, after_push, bound_entry, lemma_bound_entry_is_newest, lemma_pull_single,
};
use crate::record::{
    packets_view, Content, ContentView, Packet, PacketView, RecordLayer, RecordLayerHeader,
    RecordLayerView,
};
use crate::state::{HandshakeConfig, HandshakeState, HandshakeStateView};

verus! {

/// A stage of the server's handshake.
#[derive(Clone, Copy, Debug, PartialEq, Eq, Structural)]
pub enum Flight {
    /// Waiting for first contact.
    Flight0,
    /// The cookie exchange.
    Flight2,
    /// The key exchange.
    Flight4,
    /// The exchange of the finished messages.
    Flight6,
    /// The handshake is complete.
    Complete,
    /// The handshake was given up after a fatal alert.
    Failed,
}

/// The rule that pulls the client's `ClientHello` of the initial epoch.
pub open spec fn client_hello_rule(cfg: HandshakeConfig) -> HandshakeCachePullRule {
    HandshakeCachePullRule {
        typ: HandshakeType::ClientHello,
        epoch: cfg.initial_epoch,
        is_client: true,
        optional: false,
    }
}

/// The failure that a flight reports with a fatal alert and, where there is
/// one, a local error.
pub open spec fn fatal(description: AlertDescription, error: Option<Error>) -> (Option<Alert>, Option<
    Error,
>) {
    (Some(Alert::fatal_spec(description)), error)
}

/// What flight 0 decides on the message it pulled: anything but a
/// `ClientHello` is an internal error, another version than the configured
/// one is refused, and otherwise the cookie exchange begins.
pub open spec fn first_contact_verdict(message: HandshakeMessageView, cfg: HandshakeConfig) -> Result<
    Flight,
    (Option<Alert>, Option<Error>),
> {
    match message {
        HandshakeMessageView::ClientHello { version, cookie } => {
            if version != cfg.protocol_version {
                Err(
                    fatal(
                        AlertDescription::ProtocolVersion,
                        Some(Error::UnsupportedProtocolVersion),
                    ),
                )
            } else {
                Ok(Flight::Flight2)
            }
        },
        _ => Err(fatal(AlertDescription::InternalError, None)),
    }
}

/// What flight 2 decides on the message it pulled, for the cookie `issued`:
/// anything but a `ClientHello` is an internal error; another version than
/// the configured one is refused; an empty cookie decides nothing, the
/// `HelloVerifyRequest` goes out again; a cookie other than the issued one is
/// refused; the issued cookie opens the key exchange.
pub open spec fn cookie_verdict(
    message: HandshakeMessageView,
    issued: Seq<u8>,
    cfg: HandshakeConfig,
) -> Result<Flight, (Option<Alert>, Option<Error>)> {
    match message {
        HandshakeMessageView::ClientHello { version, cookie } => {
            if version != cfg.protocol_version {
                Err(
                    fatal(
                        AlertDescription::ProtocolVersion,
                        Some(Error::UnsupportedProtocolVersion),
                    ),
                )
            } else if cookie.len() == 0 {
                Ok(Flight::Flight2)
            } else if cookie != issued {
                Err(fatal(AlertDescription::AccessDenied, Some(Error::CookieMismatch)))
            } else {
                Ok(Flight::Flight4)
            }
        },
        _ => Err(fatal(AlertDescription::InternalError, None)),
    }
}

/// The `ClientHello` that flight 0 reads: the newest one of the initial
/// epoch from the client, whatever its sequence number.
pub open spec fn first_hello(entries: Seq<CacheEntryView>, cfg: HandshakeConfig) -> Option<
    CacheEntryView,
> {
    bound_entry(entries, 0, client_hello_rule(cfg))
}

/// The `ClientHello` that flight 2 reads: the newest one of the initial
/// epoch from the client that is not older than the sequence number that
/// `state` expects.
pub open spec fn pending_hello(
    state: HandshakeStateView,
    entries: Seq<CacheEntryView>,
    cfg: HandshakeConfig,
) -> Option<CacheEntryView> {
    bound_entry(entries, state.handshake_receive_sequence, client_hello_rule(cfg))
}

/// What `flight0parse` returns.
pub open spec fn flight0_outcome(entries: Seq<CacheEntryView>, cfg: HandshakeConfig) -> Result<
    Flight,
    (Option<Alert>, Option<Error>),
> {
    match first_hello(entries, cfg) {
        Some(entry) => first_contact_verdict(entry.message, cfg),
        None => Ok(Flight::Flight0),
    }
}

/// The state that `flight0parse` leaves: it expects the message after the
/// `ClientHello` that was read, and is unchanged where none was.
pub open spec fn flight0_state(
    state: HandshakeStateView,
    entries: Seq<CacheEntryView>,
    cfg: HandshakeConfig,
) -> HandshakeStateView {
    match first_hello(entries, cfg) {
        Some(entry) => HandshakeStateView {
            handshake_receive_sequence: entry.sequence + 1,
            ..state
        },
        None => state,
    }
}

/// What `flight2parse` returns.
pub open spec fn flight2_outcome(
    state: HandshakeStateView,
    entries: Seq<CacheEntryView>,
    cfg: HandshakeConfig,
) -> Result<Flight, (Option<Alert>, Option<Error>)> {
    match pending_hello(state, entries, cfg) {
        Some(entry) => cookie_verdict(entry.message, state.cookie, cfg),
        None => flight0_outcome(entries, cfg),
    }
}

/// The state that `flight2parse` leaves: it expects the message after the
/// `ClientHello` that was read, by flight 2 or by flight 0 in its place.
pub open spec fn flight2_state(
    state: HandshakeStateView,
    entries: Seq<CacheEntryView>,
    cfg: HandshakeConfig,
) -> HandshakeStateView {
    match pending_hello(state, entries, cfg) {
        Some(entry) => HandshakeStateView {
            handshake_receive_sequence: entry.sequence + 1,
            ..state
        },
        None => flight0_state(state, entries, cfg),
    }
}

/// The packet that carries a `HelloVerifyRequest` with `cookie`: not
/// encrypted, under the configured version, with the headers unset but for
/// that version.
pub open spec fn hello_verify_packet(cfg: HandshakeConfig, cookie: Seq<u8>) -> PacketView {
    PacketView {
        record: RecordLayerView {
            record_layer_header: RecordLayerHeader {
                protocol_version: cfg.protocol_version,
                ..RecordLayerHeader::unset()
            },
            content: ContentView::Handshake(
                HandshakeView {
                    handshake_header: HandshakeHeader::unset(),
                    handshake_message: HandshakeMessageView::HelloVerifyRequest {
                        version: cfg.protocol_version,
                        cookie,
                    },
                },
            ),
        },
        should_encrypt: false,
        reset_local_sequence_number: false,
    }
}

/// The packets of flight 2: one `HelloVerifyRequest` with the cookie that
/// was issued.
pub open spec fn flight2_packets(state: HandshakeStateView, cfg: HandshakeConfig) -> Seq<PacketView> {
    seq![hello_verify_packet(cfg, state.cookie)]
}

/// Decides on the message that flight 0 pulled.
pub fn check_first_contact(message: &HandshakeMessage, cfg: &HandshakeConfig) -> (res: Result<
    Flight,
    (Option<Alert>, Option<Error>),
>)
    ensures
        res == first_contact_verdict(message@, *cfg),
{
    match message {
        HandshakeMessage::ClientHello(client_hello) => {
            if client_hello.version != cfg.protocol_version {
                return Err(
                    (
                        Some(Alert::fatal(AlertDescription::ProtocolVersion)),
                        Some(Error::UnsupportedProtocolVersion),
                    ),
                );
            }
            Ok(Flight::Flight2)
        },
        _ => Err((Some(Alert::fatal(AlertDescription::InternalError)), None)),
    }
}

/// Decides on the message that flight 2 pulled, for the cookie `issued`.
pub fn check_cookie(message: &HandshakeMessage, issued: &Vec<u8>, cfg: &HandshakeConfig) -> (res:
    Result<Flight, (Option<Alert>, Option<Error>)>)
    ensures
        res == cookie_verdict(message@, issued@, *cfg),
{
    match message {
        HandshakeMessage::ClientHello(client_hello) => {
            if client_hello.version != cfg.protocol_version {
                return Err(
                    (
                        Some(Alert::fatal(AlertDescription::ProtocolVersion)),
                        Some(Error::UnsupportedProtocolVersion),
                    ),
                );
            }
            if client_hello.cookie.len() == 0 {
                return Ok(Flight::Flight2);
            }
            let same = *issued == client_hello.cookie;
            proof {
                if same {
                    assert(issued@ =~= client_hello.cookie@);
                } else if issued@ == client_hello.cookie@ {
                    assert(forall|i: int| 0 <= i < issued.len() ==> issued[i] == client_hello.cookie[i]);
                }
            }
            if !same {
                return Err(
                    (
                        Some(Alert::fatal(AlertDescription::AccessDenied)),
                        Some(Error::CookieMismatch),
                    ),
                );
            }
            Ok(Flight::Flight4)
        },
        _ => Err((Some(Alert::fatal(AlertDescription::InternalError)), None)),
    }
}

/// Parses flight 0, the wait for first contact. Reads the newest
/// `ClientHello` of the initial epoch from the client. While there is none,
/// nothing is decided: the state stays and the flight stays `Flight0`. Once
/// there is one, the state expects the message after it, and the hello is
/// judged: the cookie exchange begins unless it asks for another version
/// than the configured one.
pub fn flight0parse(state: &mut HandshakeState, cache: &HandshakeCache, cfg: &HandshakeConfig) -> (res:
    Result<Flight, (Option<Alert>, Option<Error>)>)
    requires
        cache.wf(),
    ensures
        res == flight0_outcome(cache@, *cfg),
        final(state)@ == flight0_state(old(state)@, cache@, *cfg),
{
    let rules = [
        HandshakeCachePullRule {
            typ: HandshakeType::ClientHello,
            epoch: cfg.initial_epoch,
            is_client: true,
            optional: false,
        },
    ];
    proof {
        assert(rules@ =~= seq![client_hello_rule(*cfg)]);
        lemma_pull_single(cache@, 0, client_hello_rule(*cfg));
    }
    let (seq, msgs) = match cache.full_pull_map(0, rules.as_slice()) {
        Ok(pulled) => pulled,
        // No ClientHello yet: keep waiting.
        Err(_) => return Ok(Flight::Flight0),
    };
    state.handshake_receive_sequence = seq;
    match msgs.get(HandshakeType::ClientHello) {
        Some(message) => check_first_contact(message, cfg),
        None => Err((Some(Alert::fatal(AlertDescription::InternalError)), None)),
    }
}

/// Parses flight 2, the cookie exchange. Reads the newest `ClientHello` of
/// the initial epoch from the client that is not older than the sequence
/// number the state expects. Where there is none, the client may be sending
/// its first `ClientHello` again because the `HelloVerifyRequest` was lost:
/// flight 0 parses in this flight's place. Where there is one, the state
/// expects the message after it, and the hello is judged against the cookie
/// that was issued. The cookie itself is never changed.
pub fn flight2parse(state: &mut HandshakeState, cache: &HandshakeCache, cfg: &HandshakeConfig) -> (res:
    Result<Flight, (Option<Alert>, Option<Error>)>)
    requires
        cache.wf(),
    ensures
        res == flight2_outcome(old(state)@, cache@, *cfg),
        final(state)@ == flight2_state(old(state)@, cache@, *cfg),
{
    let rules = [
        HandshakeCachePullRule {
            typ: HandshakeType::ClientHello,
            epoch: cfg.initial_epoch,
            is_client: true,
            optional: false,
        },
    ];
    proof {
        assert(rules@ =~= seq![client_hello_rule(*cfg)]);
        lemma_pull_single(
            cache@,
            state.handshake_receive_sequence as int,
            client_hello_rule(*cfg),
        );
        lemma_bound_entry_is_newest(
            cache@,
            state.handshake_receive_sequence as int,
            client_hello_rule(*cfg),
        );
    }
    let (seq, msgs) = match cache.full_pull_map(state.handshake_receive_sequence, rules.as_slice()) {
        Ok(pulled) => pulled,
        // The client may retransmit the first ClientHello when the
        // HelloVerifyRequest is dropped: parse as flight 0 in this case.
        Err(_) => return flight0parse(state, cache, cfg),
    };
    state.handshake_receive_sequence = seq;
    match msgs.get(HandshakeType::ClientHello) {
        Some(message) => check_cookie(message, &state.cookie, cfg),
        None => Err((Some(Alert::fatal(AlertDescription::InternalError)), None)),
    }
}

/// Generates flight 2: starts the outgoing handshake sequence over at zero
/// and emits one packet, not encrypted, that carries a `HelloVerifyRequest`
/// with the configured version and the cookie that was issued. The cache is
/// not read and the cookie is not changed, so the same packet goes out each
/// time.
pub fn flight2generate(state: &mut HandshakeState, _cache: &HandshakeCache, cfg: &HandshakeConfig) -> (res:
    Result<Vec<Packet>, (Option<Alert>, Option<Error>)>)
    ensures
        final(state)@ == (HandshakeStateView { handshake_send_sequence: 0, ..old(state)@ }),
        res matches Ok(packets) && packets_view(packets@) == flight2_packets(old(state)@, *cfg),
{
    state.handshake_send_sequence = 0;
    let header = RecordLayerHeader::default();
    let packet = Packet {
        record: RecordLayer {
            record_layer_header: RecordLayerHeader {
                content_type: header.content_type,
                protocol_version: cfg.protocol_version,
                epoch: header.epoch,
                sequence_number: header.sequence_number,
                content_len: header.content_len,
            },
            content: Content::Handshake(
                Handshake {
                    handshake_header: HandshakeHeader::default(),
                    handshake_message: HandshakeMessage::HelloVerifyRequest(
                        HandshakeMessageHelloVerifyRequest {
                            version: cfg.protocol_version,
                            cookie: state.cookie.clone(),
                        },
                    ),
                },
            ),
        },
        should_encrypt: false,
        reset_local_sequence_number: false,
    };
    let packets = vec![packet];
    assert(packets_view(packets@) =~= flight2_packets(old(state)@, *cfg));
    Ok(packets)
}

/// The hello that flight 2 judges is a `ClientHello` of the initial epoch
/// from the client, and none that the cache holds is newer.
pub proof fn lemma_pending_hello(
    state: HandshakeStateView,
    entries: Seq<CacheEntryView>,
    cfg: HandshakeConfig,
)
    ensures
        match pending_hello(state, entries, cfg) {
            Some(entry) => {
                &&& entries.contains(entry)
                &&& entry.message is ClientHello
                &&& entry.epoch == cfg.initial_epoch
                &&& entry.is_client
                &&& entry.sequence >= state.handshake_receive_sequence
            },
            None => forall|k: int|
                0 <= k < entries.len() ==> !accepts(
                    client_hello_rule(cfg),
                    #[trigger] entries[k],
                    state.handshake_receive_sequence,
                ),
        },
{
    lemma_bound_entry_is_newest(entries, state.handshake_receive_sequence, client_hello_rule(cfg));
}

/// The cookie gate. Of a pending `ClientHello` of the configured version:
/// with an empty cookie nothing is decided, the flight stays and its packets
/// are the `HelloVerifyRequest` with the cookie that was issued; with that
/// cookie, not empty, the handshake goes on to the key exchange; with any
/// other cookie the peer is refused with a fatal `AccessDenied`.
pub proof fn lemma_cookie_gate(
    state: HandshakeStateView,
    entries: Seq<CacheEntryView>,
    cfg: HandshakeConfig,
)
    requires
        pending_hello(state, entries, cfg) matches Some(entry)
            && entry.message matches HandshakeMessageView::ClientHello { version, .. }
            && version == cfg.protocol_version,
    ensures
        ({
            let cookie = pending_hello(state, entries, cfg)->0.message->ClientHello_cookie;
            let outcome = flight2_outcome(state, entries, cfg);
            let packets = flight2_packets(flight2_state(state, entries, cfg), cfg);
            &&& cookie.len() == 0 ==> outcome == Ok::<Flight, (Option<Alert>, Option<Error>)>(
                Flight::Flight2,
            ) && packets == seq![hello_verify_packet(cfg, state.cookie)]
            &&& cookie.len() > 0 && cookie == state.cookie ==> outcome == Ok::<
                Flight,
                (Option<Alert>, Option<Error>),
            >(Flight::Flight4)
            &&& cookie.len() > 0 && cookie != state.cookie ==> outcome == Err::<
                Flight,
                (Option<Alert>, Option<Error>),
            >(fatal(AlertDescription::AccessDenied, Some(Error::CookieMismatch)))
        }),
{
}

/// The version gate. A `ClientHello` of another version than the configured
/// one is refused with a fatal `ProtocolVersion`, whatever its cookie and
/// whatever cookie was issued: by flight 2 where the hello is pending, and
/// by flight 0 in its place where none is pending.
pub proof fn lemma_version_gate(
    state: HandshakeStateView,
    entries: Seq<CacheEntryView>,
    cfg: HandshakeConfig,
)
    requires
        match pending_hello(state, entries, cfg) {
            Some(entry) => entry.message matches HandshakeMessageView::ClientHello { version, .. }
                && version != cfg.protocol_version,
            None => first_hello(entries, cfg) matches Some(entry)
                && entry.message matches HandshakeMessageView::ClientHello { version, .. }
                && version != cfg.protocol_version,
        },
    ensures
        flight2_outcome(state, entries, cfg) == Err::<Flight, (Option<Alert>, Option<Error>)>(
            fatal(AlertDescription::ProtocolVersion, Some(Error::UnsupportedProtocolVersion)),
        ),
{
}

/// The fallback to flight 0. Where the cache holds no `ClientHello` of the
/// initial epoch from the client that is as new as the state expects, be it
/// empty or full of older messages and messages of other epochs, flight 2
/// returns what flight 0 returns and leaves the state that flight 0 leaves.
/// With no such hello at all that is `Ok(Flight0)` and the state unchanged.
pub proof fn lemma_flight0_fallback(
    state: HandshakeStateView,
    entries: Seq<CacheEntryView>,
    cfg: HandshakeConfig,
)
    requires
        forall|k: int|
            0 <= k < entries.len() ==> !accepts(
                client_hello_rule(cfg),
                #[trigger] entries[k],
                state.handshake_receive_sequence,
            ),
    ensures
        flight2_outcome(state, entries, cfg) == flight0_outcome(entries, cfg),
        flight2_state(state, entries, cfg) == flight0_state(state, entries, cfg),
        (forall|k: int|
            0 <= k < entries.len() ==> !accepts(client_hello_rule(cfg), #[trigger] entries[k], 0))
            ==> flight2_outcome(state, entries, cfg) == Ok::<
            Flight,
            (Option<Alert>, Option<Error>),
        >(Flight::Flight0) && flight2_state(state, entries, cfg) == state,
{
}

/// Parsing never touches the cookie or the outgoing sequence number, so the
/// packets of flight 2 are the same before and after any parse.
pub proof fn lemma_parse_keeps_cookie(
    state: HandshakeStateView,
    entries: Seq<CacheEntryView>,
    cfg: HandshakeConfig,
)
    ensures
        flight2_state(state, entries, cfg).cookie == state.cookie,
        flight2_state(state, entries, cfg).handshake_send_sequence
            == state.handshake_send_sequence,
        flight2_packets(flight2_state(state, entries, cfg), cfg) == flight2_packets(state, cfg),
{
}

/// Parsing the same cache again changes nothing: the state that a parse
/// leaves is the state that a second parse leaves.
pub proof fn lemma_parse_again(
    state: HandshakeStateView,
    entries: Seq<CacheEntryView>,
    cfg: HandshakeConfig,
)
    ensures
        flight2_state(flight2_state(state, entries, cfg), entries, cfg) == flight2_state(
            state,
            entries,
            cfg,
        ),
{
    let rule = client_hello_rule(cfg);
    let once = flight2_state(state, entries, cfg);
    lemma_bound_entry_is_newest(entries, state.handshake_receive_sequence, rule);
    lemma_bound_entry_is_newest(entries, once.handshake_receive_sequence, rule);
    lemma_bound_entry_is_newest(entries, 0, rule);
    match pending_hello(once, entries, cfg) {
        Some(entry) => {
            let k = choose|k: int| 0 <= k < entries.len() && entries[k] == entry;
            assert(accepts(rule, entries[k], 0));
            if pending_hello(state, entries, cfg) is Some {
                assert(accepts(rule, entries[k], state.handshake_receive_sequence));
            }
        },
        None => {
            match pending_hello(state, entries, cfg) {
                Some(entry) => {
                    let k = choose|k: int| 0 <= k < entries.len() && entries[k] == entry;
                    assert(accepts(rule, entries[k], 0));
                    let first = first_hello(entries, cfg)->0;
                    let f = choose|f: int| 0 <= f < entries.len() && entries[f] == first;
                    assert(accepts(rule, entries[f], state.handshake_receive_sequence));
                },
                None => {},
            }
        },
    }
}

/// A retransmission changes nothing. Pushing a message a second time leaves
/// the cache as the first push left it. So whatever a parse returned after
/// the first delivery it returns after the second, a parse after the second
/// delivery does not move the sequence number that the parse after the first
/// one left, and the packets of flight 2 are the same throughout: the cookie
/// is not issued anew.
pub proof fn lemma_retransmission(
    state: HandshakeStateView,
    entries: Seq<CacheEntryView>,
    limit: int,
    entry: CacheEntryView,
    cfg: HandshakeConfig,
)
    ensures
        ({
            let once = after_push(entries, limit, entry);
            let twice = after_push(once, limit, entry);
            &&& twice == once
            &&& flight2_outcome(state, twice, cfg) == flight2_outcome(state, once, cfg)
            &&& flight2_state(state, twice, cfg) == flight2_state(state, once, cfg)
            &&& flight2_state(flight2_state(state, once, cfg), twice, cfg) == flight2_state(
                state,
                once,
                cfg,
            )
            &&& flight2_packets(flight2_state(state, twice, cfg), cfg) == flight2_packets(
                state,
                cfg,
            )
        }),
{
    let once = after_push(entries, limit, entry);
    if once != entries {
        assert(once[entries.len() as int] == entry);
    }
    lemma_parse_again(state, once, cfg);
}

} // verus!
