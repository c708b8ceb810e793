use vstd::prelude::*;
use crate::callouts::common::{
    NetBufferList, PacketAction, fold_verdicts, inspect_packets, inspected, lemma_fold_verdicts_outcome,
    lemma_fold_verdicts_same, list_action, verdicts_of,
};
use crate::packet::{Packet, packet_bytes};

verus! {

/// IP protocol number of ICMP.
pub const IPPROTO_ICMP: u32 = 1;

/// IP protocol number of TCP.
pub const IPPROTO_TCP: u32 = 6;

/// IP protocol number of UDP.
pub const IPPROTO_UDP: u32 = 17;

/// The smallest IPv4 header, in bytes.
pub const IPV4_MIN_HEADER_LEN: usize = 20;

/// Offset of the protocol field in an IPv4 header.
pub const IPV4_PROTOCOL_OFFSET: isize = 9;

/// The incoming values that the filtering engine hands a callout: `None` where it hands
/// none, else each field's value read as an 8-bit integer.
pub struct FixedValues {
    pub incoming_value: Option<Vec<u8>>,
}

/// What a classify callback does with the classification: leave it as it is, mark it
/// blocked, or log the packet.
#[derive(Clone, Copy, Debug, PartialEq, Eq, Structural)]
pub enum ClassifyOutcome {
    Unchanged,
    Block,
    LogIcmp,
    LogProtocol(usize),
}

/// The verdict on an outbound IPv4 packet: packets shorter than an IPv4 header, and TCP
/// and UDP packets, pass; any other protocol is logged with its number.
pub open spec fn ipv4_verdict(pkt: Seq<u8>) -> PacketAction {
    if pkt.len() < IPV4_MIN_HEADER_LEN {
        PacketAction::Allow
    } else {
        let protocol = pkt[IPV4_PROTOCOL_OFFSET as int] as u32;
        if protocol == IPPROTO_TCP || protocol == IPPROTO_UDP {
            PacketAction::Allow
        } else {
            PacketAction::Log(protocol as usize)
        }
    }
}

/// What the outbound IPv4 callout does with the values, buffer list and classification
/// it is handed.
pub open spec fn ipv4_classify(
    in_fixed_values: Option<&FixedValues>,
    layer_data: Option<&NetBufferList>,
    classify_out: bool,
) -> ClassifyOutcome {
    match in_fixed_values {
        None => ClassifyOutcome::Unchanged,
        Some(fixed) => match fixed.incoming_value {
            None => ClassifyOutcome::Unchanged,
            Some(_) => match layer_data {
                None => ClassifyOutcome::Unchanged,
                Some(list) => match list_action(*list, |b: Seq<u8>| ipv4_verdict(b)) {
                    PacketAction::Block => if classify_out {
                        ClassifyOutcome::Block
                    } else {
                        ClassifyOutcome::Unchanged
                    },
                    PacketAction::Log(data) => if protocol_of(data) == IPPROTO_ICMP {
                        ClassifyOutcome::LogIcmp
                    } else {
                        ClassifyOutcome::LogProtocol(data)
                    },
                    PacketAction::Allow => ClassifyOutcome::Unchanged,
                },
            },
        },
    }
}

/// The protocol number that a logged value stands for: its low 32 bits.
pub open spec fn protocol_of(data: usize) -> u32 {
    data as u32
}

/// Reads a logged value back as a protocol number.
fn log_protocol(data: usize) -> (protocol: u32)
    ensures
        protocol == protocol_of(data),
{
    data as u32
}

/// Inspects one outbound IPv4 packet.
pub fn inspect_ipv4_packet(pkt: &Packet) -> (verdict: PacketAction)
    ensures
        verdict == ipv4_verdict(pkt@),
{
    let mut verdict = PacketAction::Allow;
    if pkt.get_size() < IPV4_MIN_HEADER_LEN {
        return verdict;
    }
    let protocol = pkt.byte_at(IPV4_PROTOCOL_OFFSET) as u32;
    if protocol == IPPROTO_TCP || protocol == IPPROTO_UDP {
    } else {
        verdict = PacketAction::Log(protocol as usize);
    }
    verdict
}

/// The outbound IPv4 packet callout: inspects the packets of the buffer list and says
/// whether to block the classification or what to log. Without incoming values or
/// without a buffer list it does nothing.
pub fn outbound_ippacket_classify_v4(
    in_fixed_values: Option<&FixedValues>,
    layer_data: Option<&NetBufferList>,
    classify_out: bool,
) -> (outcome: ClassifyOutcome)
    ensures
        outcome == ipv4_classify(in_fixed_values, layer_data, classify_out),
{
    let fixed = match in_fixed_values {
        None => return ClassifyOutcome::Unchanged,
        Some(fixed) => fixed,
    };
    if fixed.incoming_value.is_none() {
        return ClassifyOutcome::Unchanged;
    }
    let list = match layer_data {
        None => return ClassifyOutcome::Unchanged,
        Some(list) => list,
    };
    let inspect = |pkt: &Packet| -> (v: PacketAction)
        ensures
            v == ipv4_verdict(pkt@),
        { inspect_ipv4_packet(pkt) };
    let action = inspect_packets(list, inspect);
    proof {
        let bufs = list.buffers@;
        let g = |b: Seq<u8>| ipv4_verdict(b);
        if !list.has_next {
            let (packets, verdicts) = choose|packets: Seq<Packet>, verdicts: Seq<PacketAction>|
                inspected(bufs, packets, verdicts, inspect) && action == fold_verdicts(
                    bufs,
                    verdicts,
                    bufs.len(),
                );
            assert forall|i: int| 0 <= i < bufs.len() && (#[trigger] packet_bytes(bufs[i])) is Some implies verdicts[i]
                == verdicts_of(bufs, g)[i] by {
                assert(inspect.ensures((&packets[i],), verdicts[i]));
            }
            lemma_fold_verdicts_same(bufs, verdicts, verdicts_of(bufs, g), bufs.len());
        }
        assert(action == list_action(*list, g));
    }
    match action {
        PacketAction::Block if classify_out => ClassifyOutcome::Block,
        PacketAction::Log(data) => {
            if log_protocol(data) == IPPROTO_ICMP {
                ClassifyOutcome::LogIcmp
            } else {
                ClassifyOutcome::LogProtocol(data)
            }
        },
        _ => ClassifyOutcome::Unchanged,
    }
}

/// The IPv4 callout only ever logs: no packet makes it block a classification.
pub proof fn lemma_ipv4_callout_never_blocks(
    in_fixed_values: Option<&FixedValues>,
    layer_data: Option<&NetBufferList>,
    classify_out: bool,
)
    ensures
        ipv4_classify(in_fixed_values, layer_data, classify_out) != ClassifyOutcome::Block,
{
    if let Some(list) = layer_data {
        let bufs = list.buffers@;
        let vs = verdicts_of(bufs, |b: Seq<u8>| ipv4_verdict(b));
        lemma_fold_verdicts_outcome(bufs, vs, bufs.len());
        if fold_verdicts(bufs, vs, bufs.len()) is Block {
            let i = choose|i: int| 0 <= i < bufs.len() && (#[trigger] packet_bytes(bufs[i])) is Some && vs[i] is Block;
            assert(vs[i] == ipv4_verdict(packet_bytes(bufs[i])->0));
        }
    }
}

/// A packet shorter than 20 bytes passes; a longer one passes exactly when its protocol
/// byte (offset 9) is TCP (6) or UDP (17), and is otherwise logged with that byte.
pub proof fn lemma_ipv4_verdict_by_protocol(p: Seq<u8>)
    ensures
        p.len() < 20 ==> ipv4_verdict(p) == PacketAction::Allow,
        p.len() >= 20 && (p[9] == 6u8 || p[9] == 17u8) ==> ipv4_verdict(p) == PacketAction::Allow,
        p.len() >= 20 && p[9] != 6u8 && p[9] != 17u8 ==> ipv4_verdict(p) == PacketAction::Log(p[9] as usize),
{
}

/// On a buffer list that no other list follows and holds one packet of at least 20 bytes,
/// with incoming values present, the IPv4 callout logs ICMP (1) as ICMP, leaves TCP (6)
/// and UDP (17) unchanged, and logs any other protocol with its number.
pub proof fn lemma_ipv4_callout_single_packet(fixed: &FixedValues, list: &NetBufferList, classify_out: bool)
    requires
        fixed.incoming_value is Some,
        !list.has_next,
        list.buffers@.len() == 1,
        packet_bytes(list.buffers@[0]) matches Some(p) && p.len() >= 20,
    ensures
        ({
            let p = packet_bytes(list.buffers@[0])->0;
            let outcome = ipv4_classify(Some(fixed), Some(list), classify_out);
            &&& p[9] == 1u8 ==> outcome == ClassifyOutcome::LogIcmp
            &&& (p[9] == 6u8 || p[9] == 17u8) ==> outcome == ClassifyOutcome::Unchanged
            &&& (p[9] != 1u8 && p[9] != 6u8 && p[9] != 17u8) ==> (outcome matches ClassifyOutcome::LogProtocol(d)
                && d == p[9])
        }),
{
    reveal_with_fuel(fold_verdicts, 2);
    let p = packet_bytes(list.buffers@[0])->0;
    lemma_protocol_of_byte(p[9]);
}

/// A protocol byte logged as a number reads back as that byte.
proof fn lemma_protocol_of_byte(b: u8)
    ensures
        protocol_of(b as usize) == b,
{
    assert((b as usize) as u32 == b) by (bit_vector);
}

} // verus!
