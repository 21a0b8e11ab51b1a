use dtls::cache::{HandshakeCache, HandshakeCachePullRule};
use dtls::error::Error;
use dtls::handshake::{
    HandshakeMessage, HandshakeMessageClientHello, HandshakeMessageHelloVerifyRequest,
    HandshakeType, ProtocolVersion,
};

fn client_hello(cookie: &[u8]) -> HandshakeMessage {
    HandshakeMessage::ClientHello(HandshakeMessageClientHello {
        version: ProtocolVersion::dtls1_2(),
        cookie: cookie.to_vec(),
    })
}

fn hello_verify_request(cookie: &[u8]) -> HandshakeMessage {
    HandshakeMessage::HelloVerifyRequest(HandshakeMessageHelloVerifyRequest {
        version: ProtocolVersion::dtls1_2(),
        cookie: cookie.to_vec(),
    })
}

fn rule(typ: HandshakeType, epoch: u16, is_client: bool, optional: bool) -> HandshakeCachePullRule {
    HandshakeCachePullRule { typ, epoch, is_client, optional }
}

#[test]
fn new_cache_is_empty() {
    let cache = HandshakeCache::new(8);
    assert_eq!(cache.len(), 0);
}

#[test]
fn push_stores_a_new_message() {
    let mut cache = HandshakeCache::new(8);
    assert_eq!(cache.push(client_hello(b""), 0, 0, true), Ok(true));
    assert_eq!(cache.len(), 1);
    assert_eq!(cache.push(hello_verify_request(b"abc"), 0, 0, false), Ok(true));
    assert_eq!(cache.len(), 2);
    assert_eq!(cache.push(client_hello(b"abc"), 1, 0, true), Ok(true));
    assert_eq!(cache.len(), 3);
}

#[test]
fn push_ignores_a_retransmission() {
    let mut cache = HandshakeCache::new(8);
    assert_eq!(cache.push(client_hello(b""), 0, 0, true), Ok(true));
    assert_eq!(cache.push(client_hello(b""), 0, 0, true), Ok(false));
    assert_eq!(cache.len(), 1);
}

#[test]
fn push_keeps_the_first_message_of_a_slot() {
    let mut cache = HandshakeCache::new(8);
    assert_eq!(cache.push(client_hello(b"first"), 3, 0, true), Ok(true));
    assert_eq!(cache.push(client_hello(b"second"), 3, 1, true), Ok(false));
    assert_eq!(cache.len(), 1);
    let rules = [rule(HandshakeType::ClientHello, 0, true, false)];
    let (seq, messages) = cache.full_pull_map(0, &rules).unwrap();
    assert_eq!(seq, 4);
    assert_eq!(messages.get(HandshakeType::ClientHello), Some(&client_hello(b"first")));
}

#[test]
fn push_fails_when_the_cache_is_full() {
    let mut cache = HandshakeCache::new(2);
    assert_eq!(cache.push(client_hello(b""), 0, 0, true), Ok(true));
    assert_eq!(cache.push(client_hello(b"x"), 1, 0, true), Ok(true));
    assert_eq!(cache.push(client_hello(b"y"), 2, 0, true), Err(Error::CacheExhausted));
    assert_eq!(cache.len(), 2);
    // A retransmission needs no room.
    assert_eq!(cache.push(client_hello(b"x"), 1, 0, true), Ok(false));
    assert_eq!(cache.len(), 2);
}

#[test]
fn push_into_a_cache_without_room_fails() {
    let mut cache = HandshakeCache::new(0);
    assert_eq!(cache.push(client_hello(b""), 0, 0, true), Err(Error::CacheExhausted));
    assert_eq!(cache.len(), 0);
}

#[test]
fn pull_of_no_rules_binds_nothing() {
    let mut cache = HandshakeCache::new(8);
    cache.push(client_hello(b""), 0, 0, true).unwrap();
    let (seq, messages) = cache.full_pull_map(5, &[]).unwrap();
    assert_eq!(seq, 5);
    assert_eq!(messages.get(HandshakeType::ClientHello), None);
}

#[test]
fn pull_from_an_empty_cache_fails_on_a_mandatory_rule() {
    let cache = HandshakeCache::new(8);
    let rules = [rule(HandshakeType::ClientHello, 0, true, false)];
    assert_eq!(cache.full_pull_map(0, &rules).err(), Some(Error::MissingMandatoryMessage));
}

#[test]
fn pull_goes_on_without_an_optional_message() {
    let cache = HandshakeCache::new(8);
    let rules = [rule(HandshakeType::ClientHello, 0, true, true)];
    let (seq, messages) = cache.full_pull_map(3, &rules).unwrap();
    assert_eq!(seq, 3);
    assert_eq!(messages.get(HandshakeType::ClientHello), None);
}

#[test]
fn pull_binds_the_newest_message() {
    let mut cache = HandshakeCache::new(8);
    cache.push(client_hello(b"new"), 1, 0, true).unwrap();
    cache.push(client_hello(b""), 0, 0, true).unwrap();
    let rules = [rule(HandshakeType::ClientHello, 0, true, false)];
    let (seq, messages) = cache.full_pull_map(0, &rules).unwrap();
    assert_eq!(seq, 2);
    assert_eq!(messages.get(HandshakeType::ClientHello), Some(&client_hello(b"new")));
    assert_eq!(messages.get(HandshakeType::HelloVerifyRequest), None);
}

#[test]
fn pull_passes_over_older_messages() {
    let mut cache = HandshakeCache::new(8);
    cache.push(client_hello(b""), 0, 0, true).unwrap();
    let rules = [rule(HandshakeType::ClientHello, 0, true, false)];
    assert_eq!(cache.full_pull_map(1, &rules).err(), Some(Error::MissingMandatoryMessage));
    let (seq, _) = cache.full_pull_map(0, &rules).unwrap();
    assert_eq!(seq, 1);
    let (seq, _) = cache.full_pull_map(-4, &rules).unwrap();
    assert_eq!(seq, 1);
}

#[test]
fn pull_passes_over_other_epochs() {
    let mut cache = HandshakeCache::new(8);
    cache.push(client_hello(b""), 0, 1, true).unwrap();
    let rules = [rule(HandshakeType::ClientHello, 0, true, false)];
    assert_eq!(cache.full_pull_map(0, &rules).err(), Some(Error::MissingMandatoryMessage));
    let rules = [rule(HandshakeType::ClientHello, 1, true, false)];
    assert!(cache.full_pull_map(0, &rules).is_ok());
}

#[test]
fn pull_passes_over_the_other_direction() {
    let mut cache = HandshakeCache::new(8);
    cache.push(client_hello(b""), 0, 0, false).unwrap();
    let rules = [rule(HandshakeType::ClientHello, 0, true, false)];
    assert_eq!(cache.full_pull_map(0, &rules).err(), Some(Error::MissingMandatoryMessage));
}

#[test]
fn pull_passes_over_other_kinds() {
    let mut cache = HandshakeCache::new(8);
    cache.push(hello_verify_request(b"abc"), 0, 0, true).unwrap();
    let rules = [rule(HandshakeType::ClientHello, 0, true, false)];
    assert_eq!(cache.full_pull_map(0, &rules).err(), Some(Error::MissingMandatoryMessage));
}

#[test]
fn pull_of_several_rules_binds_each() {
    let mut cache = HandshakeCache::new(8);
    cache.push(client_hello(b""), 0, 0, true).unwrap();
    cache.push(hello_verify_request(b"abc"), 0, 0, false).unwrap();
    cache.push(client_hello(b"abc"), 1, 0, true).unwrap();
    let rules = [
        rule(HandshakeType::HelloVerifyRequest, 0, false, false),
        rule(HandshakeType::ClientHello, 0, true, false),
        rule(HandshakeType::Finished, 1, true, true),
    ];
    let (seq, messages) = cache.full_pull_map(0, &rules).unwrap();
    assert_eq!(seq, 2);
    assert_eq!(messages.get(HandshakeType::ClientHello), Some(&client_hello(b"abc")));
    assert_eq!(
        messages.get(HandshakeType::HelloVerifyRequest),
        Some(&hello_verify_request(b"abc"))
    );
    assert_eq!(messages.get(HandshakeType::Finished), None);
}

#[test]
fn pull_is_all_or_nothing() {
    let mut cache = HandshakeCache::new(8);
    cache.push(client_hello(b""), 0, 0, true).unwrap();
    let rules = [
        rule(HandshakeType::ClientHello, 0, true, false),
        rule(HandshakeType::HelloVerifyRequest, 0, false, false),
    ];
    assert_eq!(cache.full_pull_map(0, &rules).err(), Some(Error::MissingMandatoryMessage));
    let rules = [
        rule(HandshakeType::HelloVerifyRequest, 0, false, false),
        rule(HandshakeType::ClientHello, 0, true, false),
    ];
    assert_eq!(cache.full_pull_map(0, &rules).err(), Some(Error::MissingMandatoryMessage));
    cache.push(hello_verify_request(b"abc"), 0, 0, false).unwrap();
    let (seq, messages) = cache.full_pull_map(0, &rules).unwrap();
    assert_eq!(seq, 1);
    assert!(messages.get(HandshakeType::ClientHello).is_some());
    assert!(messages.get(HandshakeType::HelloVerifyRequest).is_some());
}

#[test]
fn pull_returns_one_past_the_highest_sequence_bound() {
    let mut cache = HandshakeCache::new(8);
    cache.push(client_hello(b""), 7, 0, true).unwrap();
    cache.push(hello_verify_request(b"abc"), 2, 0, false).unwrap();
    let rules = [
        rule(HandshakeType::ClientHello, 0, true, false),
        rule(HandshakeType::HelloVerifyRequest, 0, false, false),
    ];
    let (seq, _) = cache.full_pull_map(1, &rules).unwrap();
    assert_eq!(seq, 8);
    let rules = [rule(HandshakeType::HelloVerifyRequest, 0, false, false)];
    let (seq, _) = cache.full_pull_map(1, &rules).unwrap();
    assert_eq!(seq, 3);
}

#[test]
fn pull_reaches_the_last_sequence_number() {
    let mut cache = HandshakeCache::new(8);
    cache.push(client_hello(b""), u16::MAX, 0, true).unwrap();
    let rules = [rule(HandshakeType::ClientHello, 0, true, false)];
    let (seq, _) = cache.full_pull_map(0, &rules).unwrap();
    assert_eq!(seq, 65536);
}

#[test]
fn later_rule_of_a_kind_decides() {
    let mut cache = HandshakeCache::new(8);
    cache.push(client_hello(b"zero"), 0, 0, true).unwrap();
    cache.push(client_hello(b"one"), 1, 1, true).unwrap();
    let rules = [
        rule(HandshakeType::ClientHello, 0, true, false),
        rule(HandshakeType::ClientHello, 1, true, false),
    ];
    let (seq, messages) = cache.full_pull_map(0, &rules).unwrap();
    assert_eq!(seq, 2);
    assert_eq!(messages.get(HandshakeType::ClientHello), Some(&client_hello(b"one")));
    let rules = [
        rule(HandshakeType::ClientHello, 1, true, false),
        rule(HandshakeType::ClientHello, 0, true, false),
    ];
    let (seq, messages) = cache.full_pull_map(0, &rules).unwrap();
    assert_eq!(seq, 2);
    assert_eq!(messages.get(HandshakeType::ClientHello), Some(&client_hello(b"zero")));
    let rules = [
        rule(HandshakeType::ClientHello, 0, true, false),
        rule(HandshakeType::ClientHello, 2, true, true),
    ];
    let (_, messages) = cache.full_pull_map(0, &rules).unwrap();
    assert_eq!(messages.get(HandshakeType::ClientHello), Some(&client_hello(b"zero")));
}

#[test]
fn pull_leaves_the_cache_as_it_was() {
    let mut cache = HandshakeCache::new(8);
    cache.push(client_hello(b"abc"), 0, 0, true).unwrap();
    let rules = [rule(HandshakeType::ClientHello, 0, true, false)];
    let (first_seq, first) = cache.full_pull_map(0, &rules).unwrap();
    let (second_seq, second) = cache.full_pull_map(0, &rules).unwrap();
    assert_eq!(first_seq, second_seq);
    assert_eq!(first.get(HandshakeType::ClientHello), second.get(HandshakeType::ClientHello));
    assert_eq!(cache.len(), 1);
}

#[test]
fn message_kinds() {
    assert_eq!(client_hello(b"").handshake_type(), HandshakeType::ClientHello);
    assert_eq!(hello_verify_request(b"").handshake_type(), HandshakeType::HelloVerifyRequest);
}

#[test]
fn message_clone_is_equal() {
    let message = client_hello(b"cookie");
    assert_eq!(message.clone(), message);
    let message = hello_verify_request(b"cookie");
    assert_eq!(message.clone(), message);
}
