//! The codec's global guarantees: every encoder's output is recovered
//! exactly by its decoder, decoders reject keys of other entity types, and
//! the consensus-state prefix form relates to the full key as documented.

use vstd::prelude::*;

use crate::codec::channel_scope_segs;
use crate::codec::client_id_of;
use crate::codec::client_key_segs;
use crate::codec::connection_id_of;
use crate::codec::consensus_state_segs;
use crate::codec::ibc2_segs;
use crate::codec::ibc3_segs;
use crate::codec::is_channel_prefix;
use crate::codec::is_consensus_height_key;
use crate::codec::is_counter_key;
use crate::codec::is_packet_key;
use crate::codec::is_packet_prefix;
use crate::codec::is_trace_key;
use crate::codec::packet_segs;
use crate::codec::port_channel_id_of;
use crate::codec::port_id_of;
use crate::ident::dec_digits;
use crate::ident::digit_char;
use crate::ident::height_chars;
use crate::ident::lemma_dec_digits;
use crate::ident::lemma_height_chars_inj;
use crate::ident::valid_seg_chars;
use crate::key::addr_chars;
use crate::key::addr_valid;
use crate::key::lemma_addr_chars_inj;
use crate::key::lemma_segs_chars_push;
use crate::key::path_key;
use crate::key::AddrV;
use crate::key::segs_chars;
use crate::key::SegV;

verus! {

/// Round trip: the client identifier put into any client-scoped key
/// (client state, client connections, consensus prefix, update bookkeeping)
/// is recovered exactly.
pub proof fn lemma_client_key_round_trip(c: Seq<char>, last: Seq<char>)
    requires
        valid_seg_chars(c),
    ensures
        client_id_of(client_key_segs(c, last)) == Some(c),
{
}

/// Round trip: the height put into a consensus-state key is recovered
/// exactly, and no other height matches the same key; the client identifier
/// is recoverable from the same key.
pub proof fn lemma_consensus_state_round_trip(c: Seq<char>, rn: u64, rh: u64)
    requires
        valid_seg_chars(c),
    ensures
        is_consensus_height_key(consensus_state_segs(c, rn, rh), rn, rh),
        forall|rn2: u64, rh2: u64|
            is_consensus_height_key(consensus_state_segs(c, rn, rh), rn2, rh2) ==> rn2 == rn
                && rh2 == rh,
        client_id_of(consensus_state_segs(c, rn, rh)) == Some(c),
{
    let k = consensus_state_segs(c, rn, rh);
    assert(k[4] == SegV::Str(height_chars(rn, rh)));
    assert forall|rn2: u64, rh2: u64|
        is_consensus_height_key(k, rn2, rh2) implies rn2 == rn && rh2 == rh by {
        assert(height_chars(rn2, rh2) == height_chars(rn, rh));
        lemma_height_chars_inj(rn2, rh2, rn, rh);
    }
}

/// Round trip: the connection identifier put into a connection key is
/// recovered exactly.
pub proof fn lemma_connection_round_trip(c: Seq<char>)
    requires
        valid_seg_chars(c),
    ensures
        connection_id_of(ibc2_segs("connections"@, c)) == Some(c),
{
}

/// Round trip: the port identifier put into a port key is recovered
/// exactly.
pub proof fn lemma_port_round_trip(p: Seq<char>)
    requires
        valid_seg_chars(p),
    ensures
        port_id_of(ibc2_segs("ports"@, p)) == Some(p),
{
}

/// Round trip: the port and channel identifiers put into any channel-scoped
/// key (channel end or next-sequence) are recovered exactly.
pub proof fn lemma_channel_round_trip(pfx: Seq<char>, p: Seq<char>, ch: Seq<char>)
    requires
        is_channel_prefix(pfx),
        valid_seg_chars(p),
        valid_seg_chars(ch),
    ensures
        port_channel_id_of(channel_scope_segs(pfx, p, ch)) == Some((p, ch)),
{
}

/// Round trip: the identifiers and the sequence number put into any
/// packet-scoped key (commitment, receipt, acknowledgement) are recovered
/// exactly, and no other triple matches the same key. Sequence number zero
/// is included.
pub proof fn lemma_packet_round_trip(pfx: Seq<char>, p: Seq<char>, ch: Seq<char>, n: u64)
    requires
        is_packet_prefix(pfx),
        valid_seg_chars(p),
        valid_seg_chars(ch),
    ensures
        is_packet_key(packet_segs(pfx, p, ch, n), p, ch, n),
        forall|p2: Seq<char>, ch2: Seq<char>, n2: u64|
            is_packet_key(packet_segs(pfx, p, ch, n), p2, ch2, n2) ==> p2 == p && ch2 == ch && n2
                == n,
{
    let k = packet_segs(pfx, p, ch, n);
    assert(k.len() == 8);
    assert(k[1] == SegV::Str(pfx));
    assert(k[3] == SegV::Str(p));
    assert(k[5] == SegV::Str(ch));
    assert(k[7] == SegV::Str(dec_digits(n as nat)));
    assert forall|p2: Seq<char>, ch2: Seq<char>, n2: u64|
        is_packet_key(k, p2, ch2, n2) implies p2 == p && ch2 == ch && n2 == n by {
        assert(dec_digits(n2 as nat) == dec_digits(n as nat));
        lemma_dec_digits(n as nat);
        lemma_dec_digits(n2 as nat);
    }
}

/// Round trip: the owner and hash put into a denomination trace key are
/// recovered exactly, and no other pair matches the same key.
pub proof fn lemma_trace_round_trip(o: Seq<char>, h: Seq<char>)
    ensures
        is_trace_key(ibc3_segs("ibc_trace"@, o, h), o, h),
        forall|o2: Seq<char>, h2: Seq<char>|
            is_trace_key(ibc3_segs("ibc_trace"@, o, h), o2, h2) ==> o2 == o && h2 == h,
{
    assert forall|o2: Seq<char>, h2: Seq<char>|
        is_trace_key(ibc3_segs("ibc_trace"@, o, h), o2, h2) implies o2 == o && h2 == h by {
        assert(ibc3_segs("ibc_trace"@, o, h)[2] == ibc3_segs("ibc_trace"@, o2, h2)[2]);
        assert(ibc3_segs("ibc_trace"@, o, h)[3] == ibc3_segs("ibc_trace"@, o2, h2)[3]);
    }
}

/// The three counter keys classify as counter keys.
pub proof fn lemma_counter_keys_classify()
    ensures
        is_counter_key(ibc2_segs("clients"@, "counter"@)),
        is_counter_key(ibc2_segs("connections"@, "counter"@)),
        is_counter_key(ibc2_segs("channelEnds"@, "counter"@)),
{
}

/// Non-confusion: a port key is not accepted by the connection decoder and
/// a connection key is not accepted by the port decoder, although both have
/// the same segment count.
pub proof fn lemma_connection_port_distinct(c: Seq<char>, p: Seq<char>)
    ensures
        connection_id_of(ibc2_segs("ports"@, p)) is None,
        port_id_of(ibc2_segs("connections"@, c)) is None,
{
    reveal_strlit("ports");
    reveal_strlit("connections");
    assert("ports"@.len() == 5);
    assert("connections"@.len() == 11);
}

/// Non-confusion: a denomination trace key is not accepted by the client
/// decoder, and no client-scoped key classifies as a trace key, although
/// both have the same segment count.
pub proof fn lemma_client_trace_distinct(c: Seq<char>, last: Seq<char>, o: Seq<char>, h: Seq<char>)
    ensures
        client_id_of(ibc3_segs("ibc_trace"@, o, h)) is None,
        !is_trace_key(client_key_segs(c, last), o, h),
{
    reveal_strlit("clients");
    reveal_strlit("ibc_trace");
    assert("clients"@.len() == 7);
    assert("ibc_trace"@.len() == 9);
    if is_trace_key(client_key_segs(c, last), o, h) {
        assert(client_key_segs(c, last)[1] == ibc3_segs("ibc_trace"@, o, h)[1]);
    }
}

/// Non-confusion: the clients and channel counters are not accepted by the
/// connection decoder, and no counter key is accepted by the port decoder.
pub proof fn lemma_counter_distinct()
    ensures
        connection_id_of(ibc2_segs("clients"@, "counter"@)) is None,
        connection_id_of(ibc2_segs("channelEnds"@, "counter"@)) is None,
        port_id_of(ibc2_segs("clients"@, "counter"@)) is None,
        port_id_of(ibc2_segs("connections"@, "counter"@)) is None,
        port_id_of(ibc2_segs("channelEnds"@, "counter"@)) is None,
{
    reveal_strlit("ports");
    reveal_strlit("clients");
    reveal_strlit("connections");
    reveal_strlit("channelEnds");
    assert("ports"@.len() == 5);
    assert("clients"@.len() == 7);
    assert("connections"@.len() == 11);
    assert("channelEnds"@.len() == 11);
    assert("connections"@[0] == 'c' && "channelEnds"@[1] == 'h' && "connections"@[1] == 'o');
}

/// The consensus-state prefix is a strict prefix of the consensus-state key
/// of every height of the same client, and stripping the literal rendering
/// of height zero (with its separator) from the zero-height key's textual
/// form reproduces exactly the prefix form.
pub proof fn lemma_consensus_prefix(c: Seq<char>, rn: u64, rh: u64)
    requires
        valid_seg_chars(c),
    ensures
        consensus_state_segs(c, rn, rh).take(4) == client_key_segs(c, "consensusStates"@),
        consensus_state_segs(c, rn, rh).len() == 5,
        segs_chars(consensus_state_segs(c, 0, 0)) == segs_chars(client_key_segs(
            c,
            "consensusStates"@,
        )) + "/0-0"@,
{
    let prefix = client_key_segs(c, "consensusStates"@);
    assert(consensus_state_segs(c, rn, rh).take(4) =~= prefix);
    lemma_segs_chars_push(prefix, SegV::Str(height_chars(0, 0)));
    reveal_strlit("/0-0");
    assert(dec_digits(0) =~= seq![digit_char(0)]);
    assert(seq!['/'] + height_chars(0, 0) =~= "/0-0"@);
    assert(segs_chars(consensus_state_segs(c, 0, 0)) == segs_chars(prefix) + seq!['/']
        + height_chars(0, 0));
    assert(segs_chars(prefix) + seq!['/'] + height_chars(0, 0) =~= segs_chars(prefix) + "/0-0"@);
}

/// Per-token keys are injective in the token: two equal keys built under
/// one fixed label from valid addresses come from the same address. This is
/// what lets each token own its own limit and flow slots.
pub proof fn lemma_token_key_injective(l: Seq<char>, a: AddrV, b: AddrV)
    requires
        addr_valid(a),
        addr_valid(b),
        ibc2_segs(l, addr_chars(a)) == ibc2_segs(l, addr_chars(b)),
    ensures
        a == b,
{
    assert(ibc2_segs(l, addr_chars(a))[2] == ibc2_segs(l, addr_chars(b))[2]);
    lemma_addr_chars_inj(a, b);
}

/// Namespace invariant: every key shape this module produces begins with
/// the reserved IBC address segment, so the namespace guard accepts it.
pub proof fn lemma_module_keys_in_namespace(
    l1: Seq<char>,
    l2: Seq<char>,
    l3: Seq<char>,
    c: Seq<char>,
    rn: u64,
    rh: u64,
    p: Seq<char>,
    ch: Seq<char>,
    n: u64,
    parts: Seq<Seq<char>>,
)
    ensures
        crate::codec::ibc1_segs(l1)[0] == SegV::Addr(AddrV::Ibc),
        ibc2_segs(l1, l2)[0] == SegV::Addr(AddrV::Ibc),
        ibc3_segs(l1, l2, l3)[0] == SegV::Addr(AddrV::Ibc),
        client_key_segs(c, l1)[0] == SegV::Addr(AddrV::Ibc),
        consensus_state_segs(c, rn, rh)[0] == SegV::Addr(AddrV::Ibc),
        channel_scope_segs(l1, p, ch)[0] == SegV::Addr(AddrV::Ibc),
        packet_segs(l1, p, ch, n)[0] == SegV::Addr(AddrV::Ibc),
        path_key(parts)[0] == SegV::Addr(AddrV::Ibc),
{
}

} // verus!
