//! Per-entity key codecs: the encoder for each entity type, the exact
//! pattern-matching decoder that inverts it, and the classification
//! predicates used while iterating over the whole store.

use vstd::prelude::*;
use vstd::string::StringExecFns;

use crate::ident::ChannelId;
use crate::ident::ClientId;
use crate::ident::ConnectionId;
use crate::ident::Height;
use crate::ident::PortId;
use crate::ident::PrefixedClassId;
use crate::ident::Sequence;
use crate::ident::TokenId;
use crate::ident::dec_digits;
use crate::ident::height_chars;
use crate::ident::height_to_dec;
use crate::ident::parse_height;
use crate::ident::decode_dec_canonical;
use crate::ident::str_eq;
use crate::ident::u64_to_dec;
use crate::ident::valid_seg_chars;
use crate::ident::valid_seg_str;
use crate::hash::ibc_token;
use crate::hash::ibc_token_for_nft;
use crate::hash::nft_trace;
use crate::hash::token_hash_of;
use crate::key::addr_chars;
use crate::key::addr_to_repr;
use crate::key::key_to_repr;
use crate::key::Address;
use crate::key::AddrV;
use crate::key::DbKeySeg;
use crate::key::Key;
use crate::key::SegV;
use crate::Error;

verus! {

/// A key of one string segment under the reserved namespace.
pub open spec fn ibc1_segs(l1: Seq<char>) -> Seq<SegV> {
    seq![SegV::Addr(AddrV::Ibc), SegV::Str(l1)]
}

/// A key of two string segments under the reserved namespace.
pub open spec fn ibc2_segs(l1: Seq<char>, l2: Seq<char>) -> Seq<SegV> {
    seq![SegV::Addr(AddrV::Ibc), SegV::Str(l1), SegV::Str(l2)]
}

/// A key of three string segments under the reserved namespace.
pub open spec fn ibc3_segs(l1: Seq<char>, l2: Seq<char>, l3: Seq<char>) -> Seq<SegV> {
    seq![SegV::Addr(AddrV::Ibc), SegV::Str(l1), SegV::Str(l2), SegV::Str(l3)]
}

/// A per-client key: `clients/<clientId>/<last>`.
pub open spec fn client_key_segs(c: Seq<char>, last: Seq<char>) -> Seq<SegV> {
    ibc3_segs("clients"@, c, last)
}

/// The consensus-state key: `clients/<clientId>/consensusStates/<height>`.
pub open spec fn consensus_state_segs(c: Seq<char>, rn: u64, rh: u64) -> Seq<SegV> {
    client_key_segs(c, "consensusStates"@).push(SegV::Str(height_chars(rn, rh)))
}

/// A channel-scoped key: `<prefix>/ports/<portId>/channels/<channelId>`.
pub open spec fn channel_scope_segs(pfx: Seq<char>, p: Seq<char>, ch: Seq<char>) -> Seq<SegV> {
    seq![
        SegV::Addr(AddrV::Ibc),
        SegV::Str(pfx),
        SegV::Str("ports"@),
        SegV::Str(p),
        SegV::Str("channels"@),
        SegV::Str(ch),
    ]
}

/// A packet-scoped key: a channel-scoped key followed by
/// `sequences/<sequence>`.
pub open spec fn packet_segs(pfx: Seq<char>, p: Seq<char>, ch: Seq<char>, n: u64) -> Seq<SegV> {
    channel_scope_segs(pfx, p, ch) + seq![
        SegV::Str("sequences"@),
        SegV::Str(dec_digits(n as nat)),
    ]
}

/// The reserved namespace segment.
pub(crate) fn ibc_seg() -> (r: DbKeySeg)
    ensures
        r@ == SegV::Addr(AddrV::Ibc),
{
    DbKeySeg::AddressSeg(Address::Ibc)
}

/// A string segment from a literal label.
pub(crate) fn seg(s: &str) -> (r: DbKeySeg)
    ensures
        r@ == SegV::Str(s@),
{
    DbKeySeg::StringSeg(String::from_str(s))
}

/// A string segment owned by the key.
pub(crate) fn seg_of(s: String) -> (r: DbKeySeg)
    ensures
        r@ == SegV::Str(s@),
{
    DbKeySeg::StringSeg(s)
}

/// Whether a segment is the reserved namespace address.
fn is_ibc_addr_seg(s: &DbKeySeg) -> (r: bool)
    ensures
        r == (s@ == SegV::Addr(AddrV::Ibc)),
{
    match s {
        DbKeySeg::AddressSeg(Address::Ibc) => true,
        _ => false,
    }
}

/// The string of a string segment, if it is one.
fn seg_string<'a>(s: &'a DbKeySeg) -> (r: Option<&'a String>)
    ensures
        r matches Some(t) ==> s@ == SegV::Str(t@),
        r is None ==> !(s@ is Str),
{
    match s {
        DbKeySeg::StringSeg(t) => Some(t),
        _ => None,
    }
}

/// Whether a segment is the given literal string segment.
fn str_seg_eq(s: &DbKeySeg, lit: &str) -> (r: bool)
    ensures
        r == (s@ == SegV::Str(lit@)),
{
    match s {
        DbKeySeg::StringSeg(t) => str_eq(t.as_str(), lit),
        _ => false,
    }
}

/// An error naming the key that did not match a decoder's shape.
fn invalid_key(key: &Key) -> (e: Error)
    ensures
        e is InvalidKey,
{
    Error::InvalidKey(key_to_repr(key))
}

/// Returns a key of the IBC client counter.
pub fn client_counter_key() -> (k: Key)
    ensures
        k@ == ibc2_segs("clients"@, "counter"@),
{
    let k = Key { segments: vec![ibc_seg(), seg("clients"), seg("counter")] };
    proof {
        assert(k@ =~= ibc2_segs("clients"@, "counter"@));
    }
    k
}

/// Returns a key of the IBC connection counter.
pub fn connection_counter_key() -> (k: Key)
    ensures
        k@ == ibc2_segs("connections"@, "counter"@),
{
    let k = Key { segments: vec![ibc_seg(), seg("connections"), seg("counter")] };
    proof {
        assert(k@ =~= ibc2_segs("connections"@, "counter"@));
    }
    k
}

/// Returns a key of the IBC channel counter.
pub fn channel_counter_key() -> (k: Key)
    ensures
        k@ == ibc2_segs("channelEnds"@, "counter"@),
{
    let k = Key { segments: vec![ibc_seg(), seg("channelEnds"), seg("counter")] };
    proof {
        assert(k@ =~= ibc2_segs("channelEnds"@, "counter"@));
    }
    k
}

/// Returns a key for the client state.
pub fn client_state_key(client_id: &ClientId) -> (k: Key)
    requires
        client_id.valid(),
    ensures
        k@ == client_key_segs(client_id@, "clientState"@),
{
    let k = Key {
        segments: vec![ibc_seg(), seg("clients"), seg_of(client_id.0.clone()), seg("clientState")],
    };
    proof {
        assert(k@ =~= client_key_segs(client_id@, "clientState"@));
    }
    k
}

/// Returns a key for the consensus state at one height.
pub fn consensus_state_key(client_id: &ClientId, height: Height) -> (k: Key)
    requires
        client_id.valid(),
    ensures
        k@ == consensus_state_segs(client_id@, height.revision_number, height.revision_height),
{
    let h = height_to_dec(height.revision_number, height.revision_height);
    let k = Key {
        segments: vec![
            ibc_seg(),
            seg("clients"),
            seg_of(client_id.0.clone()),
            seg("consensusStates"),
            seg_of(h),
        ],
    };
    proof {
        assert(k@ =~= consensus_state_segs(
            client_id@,
            height.revision_number,
            height.revision_height,
        ));
    }
    k
}

/// Returns the key prefix shared by all consensus-state keys of one client,
/// for range scans over all heights.
pub fn consensus_state_prefix(client_id: &ClientId) -> (k: Key)
    requires
        client_id.valid(),
    ensures
        k@ == client_key_segs(client_id@, "consensusStates"@),
{
    let k = Key {
        segments: vec![
            ibc_seg(),
            seg("clients"),
            seg_of(client_id.0.clone()),
            seg("consensusStates"),
        ],
    };
    proof {
        assert(k@ =~= client_key_segs(client_id@, "consensusStates"@));
    }
    k
}

/// Returns a key for the connection end.
pub fn connection_key(conn_id: &ConnectionId) -> (k: Key)
    requires
        conn_id.valid(),
    ensures
        k@ == ibc2_segs("connections"@, conn_id@),
{
    let k = Key { segments: vec![ibc_seg(), seg("connections"), seg_of(conn_id.0.clone())] };
    proof {
        assert(k@ =~= ibc2_segs("connections"@, conn_id@));
    }
    k
}

/// Returns a key for the channel end.
pub fn channel_key(port_id: &PortId, channel_id: &ChannelId) -> (k: Key)
    requires
        port_id.valid(),
        channel_id.valid(),
    ensures
        k@ == channel_scope_segs("channelEnds"@, port_id@, channel_id@),
{
    let k = Key {
        segments: vec![
            ibc_seg(),
            seg("channelEnds"),
            seg("ports"),
            seg_of(port_id.0.clone()),
            seg("channels"),
            seg_of(channel_id.0.clone()),
        ],
    };
    proof {
        assert(k@ =~= channel_scope_segs("channelEnds"@, port_id@, channel_id@));
    }
    k
}

/// Returns a key for the list of connections of one client.
pub fn client_connections_key(client_id: &ClientId) -> (k: Key)
    requires
        client_id.valid(),
    ensures
        k@ == client_key_segs(client_id@, "connections"@),
{
    let k = Key {
        segments: vec![ibc_seg(), seg("clients"), seg_of(client_id.0.clone()), seg("connections")],
    };
    proof {
        assert(k@ =~= client_key_segs(client_id@, "connections"@));
    }
    k
}

/// Returns a key for the port.
pub fn port_key(port_id: &PortId) -> (k: Key)
    requires
        port_id.valid(),
    ensures
        k@ == ibc2_segs("ports"@, port_id@),
{
    let k = Key { segments: vec![ibc_seg(), seg("ports"), seg_of(port_id.0.clone())] };
    proof {
        assert(k@ =~= ibc2_segs("ports"@, port_id@));
    }
    k
}

/// Returns a key for nextSequenceSend.
pub fn next_sequence_send_key(port_id: &PortId, channel_id: &ChannelId) -> (k: Key)
    requires
        port_id.valid(),
        channel_id.valid(),
    ensures
        k@ == channel_scope_segs("nextSequenceSend"@, port_id@, channel_id@),
{
    let k = Key {
        segments: vec![
            ibc_seg(),
            seg("nextSequenceSend"),
            seg("ports"),
            seg_of(port_id.0.clone()),
            seg("channels"),
            seg_of(channel_id.0.clone()),
        ],
    };
    proof {
        assert(k@ =~= channel_scope_segs("nextSequenceSend"@, port_id@, channel_id@));
    }
    k
}

/// Returns a key for nextSequenceRecv.
pub fn next_sequence_recv_key(port_id: &PortId, channel_id: &ChannelId) -> (k: Key)
    requires
        port_id.valid(),
        channel_id.valid(),
    ensures
        k@ == channel_scope_segs("nextSequenceRecv"@, port_id@, channel_id@),
{
    let k = Key {
        segments: vec![
            ibc_seg(),
            seg("nextSequenceRecv"),
            seg("ports"),
            seg_of(port_id.0.clone()),
            seg("channels"),
            seg_of(channel_id.0.clone()),
        ],
    };
    proof {
        assert(k@ =~= channel_scope_segs("nextSequenceRecv"@, port_id@, channel_id@));
    }
    k
}

/// Returns a key for nextSequenceAck.
pub fn next_sequence_ack_key(port_id: &PortId, channel_id: &ChannelId) -> (k: Key)
    requires
        port_id.valid(),
        channel_id.valid(),
    ensures
        k@ == channel_scope_segs("nextSequenceAck"@, port_id@, channel_id@),
{
    let k = Key {
        segments: vec![
            ibc_seg(),
            seg("nextSequenceAck"),
            seg("ports"),
            seg_of(port_id.0.clone()),
            seg("channels"),
            seg_of(channel_id.0.clone()),
        ],
    };
    proof {
        assert(k@ =~= channel_scope_segs("nextSequenceAck"@, port_id@, channel_id@));
    }
    k
}

/// Builds a packet-scoped key with the given top label.
fn packet_key(pfx: &str, port_id: &PortId, channel_id: &ChannelId, sequence: Sequence) -> (k: Key)
    requires
        port_id.valid(),
        channel_id.valid(),
    ensures
        k@ == packet_segs(pfx@, port_id@, channel_id@, sequence.0),
{
    let n = u64_to_dec(sequence.0);
    let k = Key {
        segments: vec![
            ibc_seg(),
            seg(pfx),
            seg("ports"),
            seg_of(port_id.0.clone()),
            seg("channels"),
            seg_of(channel_id.0.clone()),
            seg("sequences"),
            seg_of(n),
        ],
    };
    proof {
        assert(k@ =~= packet_segs(pfx@, port_id@, channel_id@, sequence.0));
    }
    k
}

/// Returns a key for the packet commitment.
pub fn commitment_key(port_id: &PortId, channel_id: &ChannelId, sequence: Sequence) -> (k: Key)
    requires
        port_id.valid(),
        channel_id.valid(),
    ensures
        k@ == packet_segs("commitments"@, port_id@, channel_id@, sequence.0),
{
    packet_key("commitments", port_id, channel_id, sequence)
}

/// Returns a key for the packet receipt.
pub fn receipt_key(port_id: &PortId, channel_id: &ChannelId, sequence: Sequence) -> (k: Key)
    requires
        port_id.valid(),
        channel_id.valid(),
    ensures
        k@ == packet_segs("receipts"@, port_id@, channel_id@, sequence.0),
{
    packet_key("receipts", port_id, channel_id, sequence)
}

/// Returns a key for the packet acknowledgement.
pub fn ack_key(port_id: &PortId, channel_id: &ChannelId, sequence: Sequence) -> (k: Key)
    requires
        port_id.valid(),
        channel_id.valid(),
    ensures
        k@ == packet_segs("acks"@, port_id@, channel_id@, sequence.0),
{
    packet_key("acks", port_id, channel_id, sequence)
}

/// Returns a key for the timestamp of the last client update.
pub fn client_update_timestamp_key(client_id: &ClientId) -> (k: Key)
    requires
        client_id.valid(),
    ensures
        k@ == client_key_segs(client_id@, "update_timestamp"@),
{
    let k = Key {
        segments: vec![
            ibc_seg(),
            seg("clients"),
            seg_of(client_id.0.clone()),
            seg("update_timestamp"),
        ],
    };
    proof {
        assert(k@ =~= client_key_segs(client_id@, "update_timestamp"@));
    }
    k
}

/// Returns a key for the height of the last client update.
pub fn client_update_height_key(client_id: &ClientId) -> (k: Key)
    requires
        client_id.valid(),
    ensures
        k@ == client_key_segs(client_id@, "update_height"@),
{
    let k = Key {
        segments: vec![ibc_seg(), seg("clients"), seg_of(client_id.0.clone()), seg("update_height")],
    };
    proof {
        assert(k@ =~= client_key_segs(client_id@, "update_height"@));
    }
    k
}

/// Returns a key for the NFT class, under the hashed class address.
pub fn nft_class_key(class_id: &PrefixedClassId) -> (k: Key)
    ensures
        k@ == ibc2_segs("nft_class"@, addr_chars(AddrV::IbcToken(token_hash_of(class_id@)))),
{
    let token = ibc_token(class_id.as_str());
    let addr = addr_to_repr(&token);
    let k = Key { segments: vec![ibc_seg(), seg("nft_class"), seg_of(addr)] };
    proof {
        assert(k@ =~= ibc2_segs("nft_class"@, addr_chars(AddrV::IbcToken(token_hash_of(
            class_id@,
        )))));
    }
    k
}

/// Returns a key for the NFT metadata, under the hashed composite address of
/// the class and token pair.
pub fn nft_metadata_key(class_id: &PrefixedClassId, token_id: &TokenId) -> (k: Key)
    ensures
        k@ == ibc2_segs("nft_meta"@, addr_chars(AddrV::IbcToken(token_hash_of(nft_trace(
            class_id@,
            token_id@,
        ))))),
{
    let token = ibc_token_for_nft(class_id, token_id);
    let addr = addr_to_repr(&token);
    let k = Key { segments: vec![ibc_seg(), seg("nft_meta"), seg_of(addr)] };
    proof {
        assert(k@ =~= ibc2_segs("nft_meta"@, addr_chars(AddrV::IbcToken(token_hash_of(nft_trace(
            class_id@,
            token_id@,
        ))))));
    }
    k
}

/// The storage key prefix of the denomination traces, scoped to one owner
/// when one is given.
pub fn ibc_trace_key_prefix(addr: Option<String>) -> (k: Key)
    requires
        addr matches Some(a) ==> valid_seg_chars(a@),
    ensures
        addr matches Some(a) ==> k@ == ibc2_segs("ibc_trace"@, a@),
        addr is None ==> k@ == ibc1_segs("ibc_trace"@),
{
    match addr {
        Some(a) => {
            let k = Key { segments: vec![ibc_seg(), seg("ibc_trace"), seg_of(a)] };
            proof {
                assert(k@.len() == 3);
                assert(k@ =~= ibc2_segs("ibc_trace"@, k@[2]->Str_0));
            }
            k
        },
        None => {
            let k = Key { segments: vec![ibc_seg(), seg("ibc_trace")] };
            proof {
                assert(k@ =~= ibc1_segs("ibc_trace"@));
            }
            k
        },
    }
}

/// The storage key of the trace of one hashed token under one owner. The
/// owner is given as a string because it may name a foreign account.
pub fn ibc_trace_key(addr: &str, token_hash: &str) -> (k: Key)
    requires
        valid_seg_chars(addr@),
        valid_seg_chars(token_hash@),
    ensures
        k@ == ibc3_segs("ibc_trace"@, addr@, token_hash@),
{
    let k = Key {
        segments: vec![
            ibc_seg(),
            seg("ibc_trace"),
            seg_of(String::from_str(addr)),
            seg_of(String::from_str(token_hash)),
        ],
    };
    proof {
        assert(k@ =~= ibc3_segs("ibc_trace"@, addr@, token_hash@));
    }
    k
}

/// The client identifier held by a client-scoped key, when the key is one.
pub open spec fn client_id_of(k: Seq<SegV>) -> Option<Seq<char>> {
    if k.len() >= 3 && k[0] == SegV::Addr(AddrV::Ibc) && k[1] == SegV::Str("clients"@) && k[2] is Str
        && valid_seg_chars(k[2]->Str_0) {
        Some(k[2]->Str_0)
    } else {
        None
    }
}

/// Recovers the client identifier from a client-scoped key.
pub fn client_id(key: &Key) -> (r: Result<ClientId, Error>)
    ensures
        r matches Ok(c) ==> client_id_of(key@) == Some(c@) && c.valid(),
        r is Err ==> client_id_of(key@) is None,
        r matches Err(e) ==> e is InvalidKey,
{
    let n = key.segments.len();
    if n >= 3 && is_ibc_addr_seg(&key.segments[0]) && str_seg_eq(&key.segments[1], "clients") {
        proof {
            assert(key@[0] == key.segments@[0]@);
            assert(key@[1] == key.segments@[1]@);
            assert(key@[2] == key.segments@[2]@);
        }
        match seg_string(&key.segments[2]) {
            Some(s) => {
                if valid_seg_str(s.as_str()) {
                    Ok(ClientId(s.clone()))
                } else {
                    Err(invalid_key(key))
                }
            },
            None => Err(invalid_key(key)),
        }
    } else {
        proof {
            if key@.len() >= 3 {
                assert(key@[0] == key.segments@[0]@);
                assert(key@[1] == key.segments@[1]@);
            }
        }
        Err(invalid_key(key))
    }
}

/// Whether a key is the consensus-state key of some client at this height.
pub open spec fn is_consensus_height_key(k: Seq<SegV>, rn: u64, rh: u64) -> bool {
    &&& k.len() == 5
    &&& k[0] == SegV::Addr(AddrV::Ibc)
    &&& k[1] == SegV::Str("clients"@)
    &&& k[2] is Str
    &&& k[3] == SegV::Str("consensusStates"@)
    &&& k[4] == SegV::Str(height_chars(rn, rh))
}

/// Recovers the height from a consensus-state key.
pub fn consensus_height(key: &Key) -> (r: Result<Height, Error>)
    ensures
        r matches Ok(h) ==> is_consensus_height_key(key@, h.revision_number, h.revision_height),
        r is Err ==> forall|rn: u64, rh: u64| !is_consensus_height_key(key@, rn, rh),
        r matches Err(e) ==> e is InvalidKey,
{
    let n = key.segments.len();
    if n == 5 && is_ibc_addr_seg(&key.segments[0]) && str_seg_eq(&key.segments[1], "clients")
        && str_seg_eq(&key.segments[3], "consensusStates") {
        proof {
            assert(key@[0] == key.segments@[0]@);
            assert(key@[1] == key.segments@[1]@);
            assert(key@[2] == key.segments@[2]@);
            assert(key@[3] == key.segments@[3]@);
            assert(key@[4] == key.segments@[4]@);
        }
        match (seg_string(&key.segments[2]), seg_string(&key.segments[4])) {
            (Some(_), Some(h)) => {
                match parse_height(h.as_str()) {
                    Some((rn, rh)) => Ok(Height { revision_number: rn, revision_height: rh }),
                    None => {
                        proof {
                            assert forall|rn: u64, rh: u64| !is_consensus_height_key(
                                key@,
                                rn,
                                rh,
                            ) by {
                                if is_consensus_height_key(key@, rn, rh) {
                                    assert(h@ == height_chars(rn, rh));
                                }
                            }
                        }
                        Err(invalid_key(key))
                    },
                }
            },
            _ => Err(invalid_key(key)),
        }
    } else {
        proof {
            if key@.len() == 5 {
                assert(key@[0] == key.segments@[0]@);
                assert(key@[1] == key.segments@[1]@);
                assert(key@[3] == key.segments@[3]@);
            }
        }
        Err(invalid_key(key))
    }
}

/// The connection identifier held by a connection key, when the key is one.
pub open spec fn connection_id_of(k: Seq<SegV>) -> Option<Seq<char>> {
    if k.len() == 3 && k[0] == SegV::Addr(AddrV::Ibc) && k[1] == SegV::Str("connections"@)
        && k[2] is Str && valid_seg_chars(k[2]->Str_0) {
        Some(k[2]->Str_0)
    } else {
        None
    }
}

/// Recovers the connection identifier from a connection key.
pub fn connection_id(key: &Key) -> (r: Result<ConnectionId, Error>)
    ensures
        r matches Ok(c) ==> connection_id_of(key@) == Some(c@) && c.valid(),
        r is Err ==> connection_id_of(key@) is None,
        r matches Err(e) ==> e is InvalidKey,
{
    let n = key.segments.len();
    if n == 3 && is_ibc_addr_seg(&key.segments[0]) && str_seg_eq(&key.segments[1], "connections") {
        proof {
            assert(key@[0] == key.segments@[0]@);
            assert(key@[1] == key.segments@[1]@);
            assert(key@[2] == key.segments@[2]@);
        }
        match seg_string(&key.segments[2]) {
            Some(s) => {
                if valid_seg_str(s.as_str()) {
                    Ok(ConnectionId(s.clone()))
                } else {
                    Err(invalid_key(key))
                }
            },
            None => Err(invalid_key(key)),
        }
    } else {
        proof {
            if key@.len() == 3 {
                assert(key@[0] == key.segments@[0]@);
                assert(key@[1] == key.segments@[1]@);
            }
        }
        Err(invalid_key(key))
    }
}

/// The port identifier held by a port-scoped key, when the key is one.
pub open spec fn port_id_of(k: Seq<SegV>) -> Option<Seq<char>> {
    if k.len() >= 3 && k[0] == SegV::Addr(AddrV::Ibc) && k[1] == SegV::Str("ports"@) && k[2] is Str
        && valid_seg_chars(k[2]->Str_0) {
        Some(k[2]->Str_0)
    } else {
        None
    }
}

/// Recovers the port identifier from a port-scoped key.
pub fn port_id(key: &Key) -> (r: Result<PortId, Error>)
    ensures
        r matches Ok(p) ==> port_id_of(key@) == Some(p@) && p.valid(),
        r is Err ==> port_id_of(key@) is None,
        r matches Err(e) ==> e is InvalidKey,
{
    let n = key.segments.len();
    if n >= 3 && is_ibc_addr_seg(&key.segments[0]) && str_seg_eq(&key.segments[1], "ports") {
        proof {
            assert(key@[0] == key.segments@[0]@);
            assert(key@[1] == key.segments@[1]@);
            assert(key@[2] == key.segments@[2]@);
        }
        match seg_string(&key.segments[2]) {
            Some(s) => {
                if valid_seg_str(s.as_str()) {
                    Ok(PortId(s.clone()))
                } else {
                    Err(invalid_key(key))
                }
            },
            None => Err(invalid_key(key)),
        }
    } else {
        proof {
            if key@.len() >= 3 {
                assert(key@[0] == key.segments@[0]@);
                assert(key@[1] == key.segments@[1]@);
            }
        }
        Err(invalid_key(key))
    }
}

/// The top labels under which channel-scoped keys live.
pub open spec fn is_channel_prefix(l: Seq<char>) -> bool {
    l == "channelEnds"@ || l == "nextSequenceSend"@ || l == "nextSequenceRecv"@ || l
        == "nextSequenceAck"@
}

/// The port and channel identifiers held by a channel-scoped key, when the
/// key is one.
pub open spec fn port_channel_id_of(k: Seq<SegV>) -> Option<(Seq<char>, Seq<char>)> {
    if k.len() == 6 && k[0] == SegV::Addr(AddrV::Ibc) && k[1] is Str && is_channel_prefix(
        k[1]->Str_0,
    ) && k[2] == SegV::Str("ports"@) && k[3] is Str && valid_seg_chars(k[3]->Str_0) && k[4]
        == SegV::Str("channels"@) && k[5] is Str && valid_seg_chars(k[5]->Str_0) {
        Some((k[3]->Str_0, k[5]->Str_0))
    } else {
        None
    }
}

/// Recovers the port and channel identifiers from a channel-scoped key
/// (channel end or next-sequence key).
pub fn port_channel_id(key: &Key) -> (r: Result<(PortId, ChannelId), Error>)
    ensures
        r matches Ok(t) ==> port_channel_id_of(key@) == Some((t.0@, t.1@)) && t.0.valid()
            && t.1.valid(),
        r is Err ==> port_channel_id_of(key@) is None,
        r matches Err(e) ==> e is InvalidKey,
{
    let n = key.segments.len();
    if n == 6 && is_ibc_addr_seg(&key.segments[0]) && (str_seg_eq(&key.segments[1], "channelEnds")
        || str_seg_eq(&key.segments[1], "nextSequenceSend") || str_seg_eq(
        &key.segments[1],
        "nextSequenceRecv",
    ) || str_seg_eq(&key.segments[1], "nextSequenceAck")) && str_seg_eq(&key.segments[2], "ports")
        && str_seg_eq(&key.segments[4], "channels") {
        proof {
            assert(key@[0] == key.segments@[0]@);
            assert(key@[1] == key.segments@[1]@);
            assert(key@[2] == key.segments@[2]@);
            assert(key@[3] == key.segments@[3]@);
            assert(key@[4] == key.segments@[4]@);
            assert(key@[5] == key.segments@[5]@);
        }
        match (seg_string(&key.segments[3]), seg_string(&key.segments[5])) {
            (Some(p), Some(ch)) => {
                if valid_seg_str(p.as_str()) && valid_seg_str(ch.as_str()) {
                    Ok((PortId(p.clone()), ChannelId(ch.clone())))
                } else {
                    Err(invalid_key(key))
                }
            },
            _ => Err(invalid_key(key)),
        }
    } else {
        proof {
            if key@.len() == 6 {
                assert(key@[0] == key.segments@[0]@);
                assert(key@[1] == key.segments@[1]@);
                assert(key@[2] == key.segments@[2]@);
                assert(key@[4] == key.segments@[4]@);
            }
        }
        Err(invalid_key(key))
    }
}

/// The top labels under which packet-scoped keys live.
pub open spec fn is_packet_prefix(l: Seq<char>) -> bool {
    l == "commitments"@ || l == "receipts"@ || l == "acks"@
}

/// Whether a key is a packet-scoped key holding these identifiers and this
/// sequence number.
pub open spec fn is_packet_key(k: Seq<SegV>, p: Seq<char>, ch: Seq<char>, n: u64) -> bool {
    &&& k.len() == 8
    &&& k[0] == SegV::Addr(AddrV::Ibc)
    &&& k[1] is Str
    &&& is_packet_prefix(k[1]->Str_0)
    &&& k[2] == SegV::Str("ports"@)
    &&& k[3] == SegV::Str(p)
    &&& valid_seg_chars(p)
    &&& k[4] == SegV::Str("channels"@)
    &&& k[5] == SegV::Str(ch)
    &&& valid_seg_chars(ch)
    &&& k[6] == SegV::Str("sequences"@)
    &&& k[7] == SegV::Str(dec_digits(n as nat))
}

/// Recovers the port and channel identifiers and the sequence number from a
/// packet-scoped key (commitment, receipt, or acknowledgement).
pub fn port_channel_sequence_id(key: &Key) -> (r: Result<(PortId, ChannelId, Sequence), Error>)
    ensures
        r matches Ok(t) ==> is_packet_key(key@, t.0@, t.1@, t.2.0) && t.0.valid() && t.1.valid(),
        r is Err ==> forall|p: Seq<char>, ch: Seq<char>, n: u64| !is_packet_key(key@, p, ch, n),
        r matches Err(e) ==> e is InvalidKey,
{
    let n = key.segments.len();
    if n == 8 && is_ibc_addr_seg(&key.segments[0]) && (str_seg_eq(&key.segments[1], "commitments")
        || str_seg_eq(&key.segments[1], "receipts") || str_seg_eq(&key.segments[1], "acks"))
        && str_seg_eq(&key.segments[2], "ports") && str_seg_eq(&key.segments[4], "channels")
        && str_seg_eq(&key.segments[6], "sequences") {
        proof {
            assert(key@[0] == key.segments@[0]@);
            assert(key@[1] == key.segments@[1]@);
            assert(key@[2] == key.segments@[2]@);
            assert(key@[3] == key.segments@[3]@);
            assert(key@[4] == key.segments@[4]@);
            assert(key@[5] == key.segments@[5]@);
            assert(key@[6] == key.segments@[6]@);
            assert(key@[7] == key.segments@[7]@);
        }
        match (seg_string(&key.segments[3]), seg_string(&key.segments[5]), seg_string(
            &key.segments[7],
        )) {
            (Some(p), Some(ch), Some(sn)) => {
                if valid_seg_str(p.as_str()) && valid_seg_str(ch.as_str()) {
                    match decode_dec_canonical(sn.as_str()) {
                        Some(v) => Ok((PortId(p.clone()), ChannelId(ch.clone()), Sequence(v))),
                        None => {
                            proof {
                                assert forall|p2: Seq<char>, ch2: Seq<char>, n2: u64|
                                    !is_packet_key(key@, p2, ch2, n2) by {
                                    if is_packet_key(key@, p2, ch2, n2) {
                                        assert(sn@ == dec_digits(n2 as nat));
                                    }
                                }
                            }
                            Err(invalid_key(key))
                        },
                    }
                } else {
                    Err(invalid_key(key))
                }
            },
            _ => Err(invalid_key(key)),
        }
    } else {
        proof {
            if key@.len() == 8 {
                assert(key@[0] == key.segments@[0]@);
                assert(key@[1] == key.segments@[1]@);
                assert(key@[2] == key.segments@[2]@);
                assert(key@[4] == key.segments@[4]@);
                assert(key@[6] == key.segments@[6]@);
            }
        }
        Err(invalid_key(key))
    }
}

/// Returns true exactly when the key's first segment is the reserved IBC
/// namespace address, independent of the remaining segments.
pub fn is_ibc_key(key: &Key) -> (r: bool)
    requires
        key.wf(),
    ensures
        r == (key@[0] == SegV::Addr(AddrV::Ibc)),
{
    proof {
        assert(key@[0] == key.segments@[0]@);
    }
    is_ibc_addr_seg(&key.segments[0])
}

/// Whether a key is the trace key of this owner and token hash.
pub open spec fn is_trace_key(k: Seq<SegV>, owner: Seq<char>, hash: Seq<char>) -> bool {
    k == ibc3_segs("ibc_trace"@, owner, hash)
}

/// Returns the owner and the token hash when the key is a denomination
/// trace key; a non-matching key yields nothing rather than an error, so
/// store-wide iteration can skip it silently.
pub fn is_ibc_trace_key(key: &Key) -> (r: Option<(String, String)>)
    ensures
        r matches Some(p) ==> is_trace_key(key@, p.0@, p.1@),
        r is None ==> forall|o: Seq<char>, h: Seq<char>| !is_trace_key(key@, o, h),
{
    let n = key.segments.len();
    if n == 4 && is_ibc_addr_seg(&key.segments[0]) && str_seg_eq(&key.segments[1], "ibc_trace") {
        proof {
            assert(key@[0] == key.segments@[0]@);
            assert(key@[1] == key.segments@[1]@);
            assert(key@[2] == key.segments@[2]@);
            assert(key@[3] == key.segments@[3]@);
        }
        match (seg_string(&key.segments[2]), seg_string(&key.segments[3])) {
            (Some(o), Some(h)) => {
                let p = (o.clone(), h.clone());
                proof {
                    assert(key@ =~= ibc3_segs("ibc_trace"@, o@, h@));
                }
                Some(p)
            },
            _ => {
                proof {
                    assert forall|o: Seq<char>, h: Seq<char>| !is_trace_key(key@, o, h) by {
                        if is_trace_key(key@, o, h) {
                            assert(key@[2] == SegV::Str(o));
                            assert(key@[3] == SegV::Str(h));
                        }
                    }
                }
                None
            },
        }
    } else {
        proof {
            assert forall|o: Seq<char>, h: Seq<char>| !is_trace_key(key@, o, h) by {
                if is_trace_key(key@, o, h) {
                    assert(key@.len() == 4);
                    assert(key@[0] == key.segments@[0]@);
                    assert(key@[1] == key.segments@[1]@);
                }
            }
        }
        None
    }
}

/// Whether a key is one of the three entity counters.
pub open spec fn is_counter_key(k: Seq<SegV>) -> bool {
    ||| k == ibc2_segs("clients"@, "counter"@)
    ||| k == ibc2_segs("connections"@, "counter"@)
    ||| k == ibc2_segs("channelEnds"@, "counter"@)
}

/// Returns true exactly when the key is an IBC counter key for clients,
/// connections, or channel ends; a non-matching key yields false rather
/// than an error.
pub fn is_ibc_counter_key(key: &Key) -> (r: bool)
    ensures
        r == is_counter_key(key@),
{
    let n = key.segments.len();
    if n == 3 && is_ibc_addr_seg(&key.segments[0]) && (str_seg_eq(&key.segments[1], "clients")
        || str_seg_eq(&key.segments[1], "connections") || str_seg_eq(
        &key.segments[1],
        "channelEnds",
    )) && str_seg_eq(&key.segments[2], "counter") {
        proof {
            assert(key@[0] == key.segments@[0]@);
            assert(key@[1] == key.segments@[1]@);
            assert(key@[2] == key.segments@[2]@);
            if key.segments@[1]@ == SegV::Str("clients"@) {
                assert(key@ =~= ibc2_segs("clients"@, "counter"@));
            } else if key.segments@[1]@ == SegV::Str("connections"@) {
                assert(key@ =~= ibc2_segs("connections"@, "counter"@));
            } else {
                assert(key@ =~= ibc2_segs("channelEnds"@, "counter"@));
            }
        }
        true
    } else {
        proof {
            if key@.len() == 3 {
                assert(key@[0] == key.segments@[0]@);
                assert(key@[1] == key.segments@[1]@);
                assert(key@[2] == key.segments@[2]@);
            }
        }
        false
    }
}

} // verus!
