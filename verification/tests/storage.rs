use ibc_storage::codec::ack_key;
use ibc_storage::codec::channel_counter_key;
use ibc_storage::codec::channel_key;
use ibc_storage::codec::client_connections_key;
use ibc_storage::codec::client_counter_key;
use ibc_storage::codec::client_id;
use ibc_storage::codec::client_state_key;
use ibc_storage::codec::client_update_height_key;
use ibc_storage::codec::client_update_timestamp_key;
use ibc_storage::codec::commitment_key;
use ibc_storage::codec::connection_counter_key;
use ibc_storage::codec::connection_id;
use ibc_storage::codec::connection_key;
use ibc_storage::codec::consensus_height;
use ibc_storage::codec::consensus_state_key;
use ibc_storage::codec::consensus_state_prefix;
use ibc_storage::codec::ibc_trace_key;
use ibc_storage::codec::ibc_trace_key_prefix;
use ibc_storage::codec::is_ibc_counter_key;
use ibc_storage::codec::is_ibc_key;
use ibc_storage::codec::is_ibc_trace_key;
use ibc_storage::codec::next_sequence_ack_key;
use ibc_storage::codec::next_sequence_recv_key;
use ibc_storage::codec::next_sequence_send_key;
use ibc_storage::codec::nft_class_key;
use ibc_storage::codec::nft_metadata_key;
use ibc_storage::codec::port_channel_id;
use ibc_storage::codec::port_channel_sequence_id;
use ibc_storage::codec::port_id;
use ibc_storage::codec::port_key;
use ibc_storage::codec::receipt_key;
use ibc_storage::ident::ChannelId;
use ibc_storage::ident::ClientId;
use ibc_storage::ident::ConnectionId;
use ibc_storage::ident::Height;
use ibc_storage::ident::PortId;
use ibc_storage::ident::PrefixedClassId;
use ibc_storage::ident::Sequence;
use ibc_storage::ident::TokenId;
use ibc_storage::key::key_to_repr;
use ibc_storage::key::Address;
use ibc_storage::key::DbKeySeg;
use ibc_storage::key::Key;
use ibc_storage::Error;

fn client(s: &str) -> ClientId {
    ClientId::new(String::from(s)).unwrap()
}

fn conn(s: &str) -> ConnectionId {
    ConnectionId::new(String::from(s)).unwrap()
}

fn port(s: &str) -> PortId {
    PortId::new(String::from(s)).unwrap()
}

fn channel(s: &str) -> ChannelId {
    ChannelId::new(String::from(s)).unwrap()
}

fn string_segs(k: &Key) -> Vec<String> {
    k.segments
        .iter()
        .map(|s| match s {
            DbKeySeg::AddressSeg(Address::Ibc) => String::from("#IBC"),
            DbKeySeg::AddressSeg(_) => String::from("#other"),
            DbKeySeg::StringSeg(t) => t.clone(),
        })
        .collect()
}

#[test]
fn client_state_key_shape() {
    let k = client_state_key(&client("07-tendermint-0"));
    assert_eq!(
        string_segs(&k),
        vec!["#IBC", "clients", "07-tendermint-0", "clientState"]
    );
}

#[test]
fn client_state_round_trip() {
    let c = client("07-tendermint-0");
    let k = client_state_key(&c);
    assert_eq!(client_id(&k).unwrap(), c);
}

#[test]
fn client_update_keys_round_trip() {
    let c = client("07-tendermint-12");
    assert_eq!(client_id(&client_update_timestamp_key(&c)).unwrap(), c);
    assert_eq!(client_id(&client_update_height_key(&c)).unwrap(), c);
    assert_eq!(client_id(&client_connections_key(&c)).unwrap(), c);
}

#[test]
fn consensus_state_round_trip() {
    let c = client("07-tendermint-0");
    let h = Height {
        revision_number: 3,
        revision_height: 1024,
    };
    let k = consensus_state_key(&c, h);
    assert_eq!(consensus_height(&k).unwrap(), h);
    assert_eq!(client_id(&k).unwrap(), c);
}

#[test]
fn consensus_state_zero_height_round_trip() {
    let c = client("07-tendermint-0");
    let h = Height {
        revision_number: 0,
        revision_height: 0,
    };
    let k = consensus_state_key(&c, h);
    assert_eq!(consensus_height(&k).unwrap(), h);
}

#[test]
fn consensus_prefix_is_strict_prefix() {
    let c = client("07-tendermint-0");
    let prefix = consensus_state_prefix(&c);
    let h = Height {
        revision_number: 9,
        revision_height: 7,
    };
    let k = consensus_state_key(&c, h);
    assert_eq!(prefix.segments.len() + 1, k.segments.len());
    assert_eq!(&k.segments[..prefix.segments.len()], &prefix.segments[..]);
}

#[test]
fn consensus_prefix_strips_zero_height_suffix() {
    let c = client("07-tendermint-0");
    let zero = consensus_state_key(
        &c,
        Height {
            revision_number: 0,
            revision_height: 0,
        },
    );
    let zero_repr = key_to_repr(&zero);
    let prefix_repr = key_to_repr(&consensus_state_prefix(&c));
    assert_eq!(zero_repr.strip_suffix("/0-0").unwrap(), prefix_repr);
}

#[test]
fn connection_round_trip() {
    let c = conn("connection-42");
    let k = connection_key(&c);
    assert_eq!(string_segs(&k), vec!["#IBC", "connections", "connection-42"]);
    assert_eq!(connection_id(&k).unwrap(), c);
}

#[test]
fn port_round_trip() {
    let p = port("transfer");
    let k = port_key(&p);
    assert_eq!(string_segs(&k), vec!["#IBC", "ports", "transfer"]);
    assert_eq!(port_id(&k).unwrap(), p);
}

#[test]
fn channel_round_trip() {
    let p = port("transfer");
    let ch = channel("channel-0");
    let k = channel_key(&p, &ch);
    assert_eq!(
        string_segs(&k),
        vec!["#IBC", "channelEnds", "ports", "transfer", "channels", "channel-0"]
    );
    let (p2, ch2) = port_channel_id(&k).unwrap();
    assert_eq!(p2, p);
    assert_eq!(ch2, ch);
}

#[test]
fn next_sequence_keys_round_trip() {
    let p = port("transfer");
    let ch = channel("channel-7");
    for k in [
        next_sequence_send_key(&p, &ch),
        next_sequence_recv_key(&p, &ch),
        next_sequence_ack_key(&p, &ch),
    ] {
        let (p2, ch2) = port_channel_id(&k).unwrap();
        assert_eq!(p2, p);
        assert_eq!(ch2, ch);
    }
}

#[test]
fn packet_keys_round_trip() {
    let p = port("transfer");
    let ch = channel("channel-0");
    for (k, label) in [
        (commitment_key(&p, &ch, Sequence(155)), "commitments"),
        (receipt_key(&p, &ch, Sequence(155)), "receipts"),
        (ack_key(&p, &ch, Sequence(155)), "acks"),
    ] {
        assert_eq!(
            string_segs(&k),
            vec!["#IBC", label, "ports", "transfer", "channels", "channel-0", "sequences", "155"]
        );
        let (p2, ch2, s2) = port_channel_sequence_id(&k).unwrap();
        assert_eq!(p2, p);
        assert_eq!(ch2, ch);
        assert_eq!(s2, Sequence(155));
    }
}

#[test]
fn packet_key_sequence_zero_round_trip() {
    let p = port("transfer");
    let ch = channel("channel-0");
    let k = commitment_key(&p, &ch, Sequence(0));
    let (_, _, s2) = port_channel_sequence_id(&k).unwrap();
    assert_eq!(s2, Sequence(0));
}

#[test]
fn decoders_reject_foreign_entity_types() {
    let c = conn("connection-0");
    let p = port("transfer");
    assert!(matches!(port_id(&connection_key(&c)), Err(Error::InvalidKey(_))));
    assert!(matches!(connection_id(&port_key(&p)), Err(Error::InvalidKey(_))));
    assert!(matches!(client_id(&connection_key(&c)), Err(Error::InvalidKey(_))));
    assert!(matches!(
        consensus_height(&client_state_key(&client("07-tendermint-0"))),
        Err(Error::InvalidKey(_))
    ));
    assert!(matches!(
        port_channel_sequence_id(&channel_key(&p, &channel("channel-0"))),
        Err(Error::InvalidKey(_))
    ));
    assert!(matches!(
        port_channel_id(&commitment_key(&p, &channel("channel-0"), Sequence(1))),
        Err(Error::InvalidKey(_))
    ));
}

#[test]
fn counter_keys_classify() {
    assert!(is_ibc_counter_key(&client_counter_key()));
    assert!(is_ibc_counter_key(&connection_counter_key()));
    assert!(is_ibc_counter_key(&channel_counter_key()));
    assert!(!is_ibc_counter_key(&port_key(&port("transfer"))));
    assert_eq!(string_segs(&client_counter_key()), vec!["#IBC", "clients", "counter"]);
    assert_eq!(string_segs(&connection_counter_key()), vec!["#IBC", "connections", "counter"]);
    assert_eq!(string_segs(&channel_counter_key()), vec!["#IBC", "channelEnds", "counter"]);
}

#[test]
fn namespace_guard() {
    let k = client_counter_key();
    assert!(is_ibc_key(&k));
    let foreign = Key {
        segments: vec![
            DbKeySeg::AddressSeg(Address::Other(String::from("tnam1other"))),
            DbKeySeg::StringSeg(String::from("clients")),
            DbKeySeg::StringSeg(String::from("counter")),
        ],
    };
    assert!(!is_ibc_key(&foreign));
    let string_first = Key {
        segments: vec![DbKeySeg::StringSeg(String::from("clients"))],
    };
    assert!(!is_ibc_key(&string_first));
}

#[test]
fn trace_key_round_trip() {
    let k = ibc_trace_key("tnam1owner", "abcdef0123");
    assert_eq!(string_segs(&k), vec!["#IBC", "ibc_trace", "tnam1owner", "abcdef0123"]);
    let (o, h) = is_ibc_trace_key(&k).unwrap();
    assert_eq!(o, "tnam1owner");
    assert_eq!(h, "abcdef0123");
}

#[test]
fn trace_prefixes() {
    let scoped = ibc_trace_key_prefix(Some(String::from("tnam1owner")));
    assert_eq!(string_segs(&scoped), vec!["#IBC", "ibc_trace", "tnam1owner"]);
    let bare = ibc_trace_key_prefix(None);
    assert_eq!(string_segs(&bare), vec!["#IBC", "ibc_trace"]);
    assert!(is_ibc_trace_key(&scoped).is_none());
    assert!(is_ibc_trace_key(&client_state_key(&client("07-tendermint-0"))).is_none());
}

#[test]
fn decoders_reject_foreign_namespace() {
    let foreign = Key {
        segments: vec![
            DbKeySeg::AddressSeg(Address::Other(String::from("tnam1other"))),
            DbKeySeg::StringSeg(String::from("clients")),
            DbKeySeg::StringSeg(String::from("07-tendermint-0")),
        ],
    };
    assert!(matches!(client_id(&foreign), Err(Error::InvalidKey(_))));
    assert!(!is_ibc_counter_key(&foreign));
    assert!(is_ibc_trace_key(&foreign).is_none());
}

#[test]
fn client_decoder_rejects_invalid_identifier_segment() {
    let mut k = client_state_key(&client("07-tendermint-0"));
    k.segments[2] = DbKeySeg::StringSeg(String::from("#bad"));
    assert!(matches!(client_id(&k), Err(Error::InvalidKey(_))));
}

#[test]
fn consensus_decoder_rejects_non_canonical_height() {
    let c = client("07-tendermint-0");
    let mut k = consensus_state_key(
        &c,
        Height {
            revision_number: 1,
            revision_height: 2,
        },
    );
    k.segments[4] = DbKeySeg::StringSeg(String::from("01-2"));
    assert!(matches!(consensus_height(&k), Err(Error::InvalidKey(_))));
    k.segments[4] = DbKeySeg::StringSeg(String::from("1-2-3"));
    assert!(matches!(consensus_height(&k), Err(Error::InvalidKey(_))));
    k.segments[4] = DbKeySeg::StringSeg(String::from("1-2"));
    assert_eq!(
        consensus_height(&k).unwrap(),
        Height {
            revision_number: 1,
            revision_height: 2,
        }
    );
}

#[test]
fn sequence_decoder_rejects_non_canonical_digits() {
    let p = port("transfer");
    let ch = channel("channel-0");
    let mut k = commitment_key(&p, &ch, Sequence(7));
    k.segments[7] = DbKeySeg::StringSeg(String::from("007"));
    assert!(matches!(port_channel_sequence_id(&k), Err(Error::InvalidKey(_))));
    k.segments[7] = DbKeySeg::StringSeg(String::from("7"));
    assert!(port_channel_sequence_id(&k).is_ok());
}

#[test]
fn nft_keys_shape() {
    let class = PrefixedClassId(String::from("transfer/channel-0/myclass"));
    let token = TokenId(String::from("token-1"));
    let ck = nft_class_key(&class);
    let mk = nft_metadata_key(&class, &token);
    let ck_segs = string_segs(&ck);
    let mk_segs = string_segs(&mk);
    assert_eq!(ck_segs.len(), 3);
    assert_eq!(ck_segs[0], "#IBC");
    assert_eq!(ck_segs[1], "nft_class");
    assert!(ck_segs[2].starts_with("IBC-token-"));
    assert_eq!(mk_segs[1], "nft_meta");
    assert!(mk_segs[2].starts_with("IBC-token-"));
    assert_ne!(ck_segs[2], mk_segs[2]);
}
