use vstd::prelude::*;
use crate::callouts::common::{
    NetBufferList, PacketAction, fold_verdicts, inspect_packets, inspected, lemma_fold_verdicts_congruent,
    lemma_fold_verdicts_same, list_action, verdicts_of,
};
use crate::callouts::ipv4out::{ClassifyOutcome, FixedValues, IPPROTO_TCP};
use crate::packet::{Packet, packet_bytes};

verus! {

/// Index of the IP protocol among the incoming values of the outbound transport layer.
pub const FWPS_FIELD_OUTBOUND_TRANSPORT_V4_IP_PROTOCOL: usize = 0;

/// The shortest segment that can hold a TCP header and the request line that is blocked.
pub const TRANSPORT_MIN_LEN: usize = 35;

/// The request line, without its version digits, that the transport callout blocks:
/// `GET /maps HTTP`.
pub open spec fn maps_request_line() -> Seq<u8> {
    seq![71u8, 69u8, 84u8, 32u8, 47u8, 109u8, 97u8, 112u8, 115u8, 32u8, 72u8, 84u8, 84u8, 80u8]
}

/// The verdict on an outbound TCP segment: a segment of at least 35 bytes whose header is
/// 20 bytes long (data offset 5) and whose data starts with `GET /maps HTTP` is blocked;
/// every other segment passes.
pub open spec fn transport_verdict(pkt: Seq<u8>) -> PacketAction {
    if pkt.len() < TRANSPORT_MIN_LEN {
        PacketAction::Allow
    } else if pkt[12] & 0xf0u8 == 0x50u8 && pkt.subrange(20, 34) == maps_request_line() {
        PacketAction::Block
    } else {
        PacketAction::Allow
    }
}

/// What the outbound transport callout does with the values, buffer list and
/// classification it is handed.
pub open spec fn transport_classify(
    in_fixed_values: Option<&FixedValues>,
    layer_data: Option<&NetBufferList>,
    classify_out: bool,
) -> ClassifyOutcome {
    match in_fixed_values {
        None => ClassifyOutcome::Unchanged,
        Some(fixed) => match fixed.incoming_value {
            None => ClassifyOutcome::Unchanged,
            Some(values) => if values@[FWPS_FIELD_OUTBOUND_TRANSPORT_V4_IP_PROTOCOL as int] != IPPROTO_TCP {
                ClassifyOutcome::Unchanged
            } else {
                match layer_data {
                    None => ClassifyOutcome::Unchanged,
                    Some(list) => if list_action(*list, |b: Seq<u8>| transport_verdict(b)) is Block
                        && classify_out {
                        ClassifyOutcome::Block
                    } else {
                        ClassifyOutcome::Unchanged
                    },
                }
            },
        },
    }
}

/// Inspects one outbound TCP segment.
pub fn inspect_transport_packet(pkt: &Packet) -> (verdict: PacketAction)
    ensures
        verdict == transport_verdict(pkt@),
{
    let mut verdict = PacketAction::Allow;
    if pkt.get_size() < TRANSPORT_MIN_LEN {
        return verdict;
    }
    if pkt.byte_at(12) & 0b11110000 == 0b01010000 && pkt.byte_at(20) == 71 && pkt.byte_at(21) == 69
        && pkt.byte_at(22) == 84 && pkt.byte_at(23) == 32 && pkt.byte_at(24) == 47 && pkt.byte_at(25)
        == 109 && pkt.byte_at(26) == 97 && pkt.byte_at(27) == 112 && pkt.byte_at(28) == 115
        && pkt.byte_at(29) == 32 && pkt.byte_at(30) == 72 && pkt.byte_at(31) == 84 && pkt.byte_at(32)
        == 84 && pkt.byte_at(33) == 80 {
        assert(pkt@.subrange(20, 34) =~= maps_request_line());
        verdict = PacketAction::Block;
    } else {
        proof {
            if pkt@.subrange(20, 34) == maps_request_line() {
                assert(pkt@.subrange(20, 34)[0] == 71u8);
                assert(pkt@.subrange(20, 34)[1] == 69u8);
                assert(pkt@.subrange(20, 34)[2] == 84u8);
                assert(pkt@.subrange(20, 34)[3] == 32u8);
                assert(pkt@.subrange(20, 34)[4] == 47u8);
                assert(pkt@.subrange(20, 34)[5] == 109u8);
                assert(pkt@.subrange(20, 34)[6] == 97u8);
                assert(pkt@.subrange(20, 34)[7] == 112u8);
                assert(pkt@.subrange(20, 34)[8] == 115u8);
                assert(pkt@.subrange(20, 34)[9] == 32u8);
                assert(pkt@.subrange(20, 34)[10] == 72u8);
                assert(pkt@.subrange(20, 34)[11] == 84u8);
                assert(pkt@.subrange(20, 34)[12] == 84u8);
                assert(pkt@.subrange(20, 34)[13] == 80u8);
            }
        }
    }
    verdict
}

/// The outbound transport callout: for TCP traffic, inspects the segments of the buffer
/// list and says whether to block the classification. Other protocols, and calls without
/// incoming values or without a buffer list, leave it unchanged.
pub fn outbound_transport_classify_v4(
    in_fixed_values: Option<&FixedValues>,
    layer_data: Option<&NetBufferList>,
    classify_out: bool,
) -> (outcome: ClassifyOutcome)
    requires
        in_fixed_values matches Some(fixed) ==> (fixed.incoming_value matches Some(values) ==> values@.len()
            > FWPS_FIELD_OUTBOUND_TRANSPORT_V4_IP_PROTOCOL),
    ensures
        outcome == transport_classify(in_fixed_values, layer_data, classify_out),
{
    let fixed = match in_fixed_values {
        None => return ClassifyOutcome::Unchanged,
        Some(fixed) => fixed,
    };
    let values = match &fixed.incoming_value {
        None => return ClassifyOutcome::Unchanged,
        Some(values) => values,
    };
    let protocol: u8 = values[FWPS_FIELD_OUTBOUND_TRANSPORT_V4_IP_PROTOCOL];
    if protocol as u32 != IPPROTO_TCP {
        return ClassifyOutcome::Unchanged;
    }
    let list = match layer_data {
        None => return ClassifyOutcome::Unchanged,
        Some(list) => list,
    };
    let inspect = |pkt: &Packet| -> (v: PacketAction)
        ensures
            v == transport_verdict(pkt@),
        { inspect_transport_packet(pkt) };
    let action = inspect_packets(list, inspect);
    proof {
        let bufs = list.buffers@;
        let g = |b: Seq<u8>| transport_verdict(b);
        if !list.has_next {
            let (packets, verdicts) = choose|packets: Seq<Packet>, verdicts: Seq<PacketAction>|
                inspected(bufs, packets, verdicts, inspect) && action == fold_verdicts(
                    bufs,
                    verdicts,
                    bufs.len(),
                );
            assert forall|i: int| 0 <= i < bufs.len() && (#[trigger] packet_bytes(bufs[i])) is Some implies verdicts[i]
                == verdicts_of(bufs, g)[i] by {
                assert(inspect.ensures((&packets[i],), verdicts[i]));
            }
            lemma_fold_verdicts_same(bufs, verdicts, verdicts_of(bufs, g), bufs.len());
        }
        assert(action == list_action(*list, g));
    }
    match action {
        PacketAction::Block if classify_out => ClassifyOutcome::Block,
        _ => ClassifyOutcome::Unchanged,
    }
}

/// Two segments read alike by the transport inspection: both shorter than 35 bytes, or both
/// at least that long with the same high nibble in byte 12 and the same bytes 20 to 33.
pub open spec fn same_transport_reading(p: Seq<u8>, q: Seq<u8>) -> bool {
    &&& (p.len() < TRANSPORT_MIN_LEN) == (q.len() < TRANSPORT_MIN_LEN)
    &&& p.len() >= TRANSPORT_MIN_LEN ==> {
        &&& p[12] & 0xf0u8 == q[12] & 0xf0u8
        &&& p.subrange(20, 34) == q.subrange(20, 34)
    }
}

/// The transport verdict reads only a segment's length against 35, the high nibble of byte
/// 12 and bytes 20 to 33.
pub proof fn lemma_transport_verdict_reads_only(p: Seq<u8>, q: Seq<u8>)
    requires
        same_transport_reading(p, q),
    ensures
        transport_verdict(p) == transport_verdict(q),
{
}

/// Two calls of the transport callout with the same incoming values and classification,
/// whose buffer lists agree on being chained, on their number of buffers, on which buffers
/// yield a packet, and whose packets are read alike, do the same.
pub proof fn lemma_transport_callout_reads_only(
    in_fixed_values: Option<&FixedValues>,
    l1: &NetBufferList,
    l2: &NetBufferList,
    classify_out: bool,
)
    requires
        l1.has_next == l2.has_next,
        l1.buffers@.len() == l2.buffers@.len(),
        forall|i: int|
            0 <= i < l1.buffers@.len() ==> match (#[trigger] packet_bytes(l1.buffers@[i]), packet_bytes(l2.buffers@[i])) {
                (None, None) => true,
                (Some(p), Some(q)) => same_transport_reading(p, q),
                _ => false,
            },
    ensures
        transport_classify(in_fixed_values, Some(l1), classify_out) == transport_classify(
            in_fixed_values,
            Some(l2),
            classify_out,
        ),
{
    let g = |b: Seq<u8>| transport_verdict(b);
    let b1 = l1.buffers@;
    let b2 = l2.buffers@;
    let v1 = verdicts_of(b1, g);
    let v2 = verdicts_of(b2, g);
    assert forall|i: int| 0 <= i < b1.len() implies ((#[trigger] packet_bytes(b1[i])) is Some) == (packet_bytes(b2[i]) is Some)
        && (packet_bytes(b1[i]) is Some ==> v1[i] == v2[i]) by {
        if let (Some(p), Some(q)) = (packet_bytes(b1[i]), packet_bytes(b2[i])) {
            lemma_transport_verdict_reads_only(p, q);
        }
    }
    lemma_fold_verdicts_congruent(b1, v1, b2, v2, b1.len());
    assert(list_action(*l1, g) == list_action(*l2, g));
}

/// A segment is blocked exactly when it is at least 35 bytes long, the high nibble of its
/// byte 12 is 5 (a 20-byte TCP header), and its bytes 20 to 33 are the ASCII text
/// `GET /maps HTTP`; every other segment passes.
pub proof fn lemma_transport_verdict_blocks_maps_request(p: Seq<u8>)
    ensures
        transport_verdict(p) == PacketAction::Block || transport_verdict(p) == PacketAction::Allow,
        transport_verdict(p) == PacketAction::Block <==> {
            &&& p.len() >= 35
            &&& p[12] & 0xf0u8 == 0x50u8
            &&& p[20] == 71u8 && p[21] == 69u8 && p[22] == 84u8 && p[23] == 32u8
            &&& p[24] == 47u8 && p[25] == 109u8 && p[26] == 97u8 && p[27] == 112u8
            &&& p[28] == 115u8 && p[29] == 32u8 && p[30] == 72u8 && p[31] == 84u8
            &&& p[32] == 84u8 && p[33] == 80u8
        },
{
    if p.len() >= 35 {
        let r = p.subrange(20, 34);
        let m = seq![71u8, 69u8, 84u8, 32u8, 47u8, 109u8, 97u8, 112u8, 115u8, 32u8, 72u8, 84u8, 84u8, 80u8];
        assert(maps_request_line() == m);
        if r == m {
            assert(r[0] == p[20] && r[1] == p[21] && r[2] == p[22] && r[3] == p[23]);
            assert(r[4] == p[24] && r[5] == p[25] && r[6] == p[26] && r[7] == p[27]);
            assert(r[8] == p[28] && r[9] == p[29] && r[10] == p[30] && r[11] == p[31]);
            assert(r[12] == p[32] && r[13] == p[33]);
        }
        if p[20] == 71u8 && p[21] == 69u8 && p[22] == 84u8 && p[23] == 32u8 && p[24] == 47u8 && p[25] == 109u8
            && p[26] == 97u8 && p[27] == 112u8 && p[28] == 115u8 && p[29] == 32u8 && p[30] == 72u8 && p[31]
            == 84u8 && p[32] == 84u8 && p[33] == 80u8 {
            assert(r =~= m);
        }
    }
}

/// The transport callout reads the incoming values only at the protocol field, index 0:
/// two calls whose values agree there do the same.
pub proof fn lemma_transport_callout_reads_protocol_field(
    f1: &FixedValues,
    f2: &FixedValues,
    layer_data: Option<&NetBufferList>,
    classify_out: bool,
)
    requires
        f1.incoming_value is Some == f2.incoming_value is Some,
        f1.incoming_value matches Some(v1) ==> (f2.incoming_value matches Some(v2) ==> v1@.len() > 0 && v2@.len()
            > 0 && v1@[0] == v2@[0]),
    ensures
        transport_classify(Some(f1), layer_data, classify_out) == transport_classify(Some(f2), layer_data, classify_out),
{
}

/// With TCP (6) as the protocol field, a buffer list that no other list follows and a
/// classification that can be written, the callout blocks as soon as one segment of the
/// list is blocked by the inspection; with any other protocol it leaves the
/// classification unchanged.
pub proof fn lemma_transport_callout_blocks_tcp(values: Seq<u8>, fixed: &FixedValues, list: &NetBufferList, i: int)
    requires
        fixed.incoming_value matches Some(v) && v@ == values,
        values.len() > 0,
        !list.has_next,
        0 <= i < list.buffers@.len(),
        packet_bytes(list.buffers@[i]) matches Some(p) && transport_verdict(p) == PacketAction::Block,
    ensures
        values[0] == 6u8 ==> transport_classify(Some(fixed), Some(list), true) == ClassifyOutcome::Block,
        values[0] != 6u8 ==> transport_classify(Some(fixed), Some(list), true) == ClassifyOutcome::Unchanged,
{
    let bufs = list.buffers@;
    let vs = verdicts_of(bufs, |b: Seq<u8>| transport_verdict(b));
    crate::callouts::common::lemma_fold_block_absorbs(bufs, vs, i, bufs.len());
}

/// The transport callout never logs: it either blocks or leaves the classification
/// unchanged, and it never blocks a classification it cannot write.
pub proof fn lemma_transport_callout_only_blocks(
    in_fixed_values: Option<&FixedValues>,
    layer_data: Option<&NetBufferList>,
    classify_out: bool,
)
    ensures
        transport_classify(in_fixed_values, layer_data, classify_out) == ClassifyOutcome::Block
            || transport_classify(in_fixed_values, layer_data, classify_out) == ClassifyOutcome::Unchanged,
        transport_classify(in_fixed_values, layer_data, false) == ClassifyOutcome::Unchanged,
{
}

} // verus!
