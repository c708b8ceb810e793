use vstd::prelude::*;
use crate::packet::{NetBuffer, Packet, packet_bytes};

verus! {

/// What an inspection decides about traffic.
#[derive(Clone, Copy, Debug, PartialEq, Eq, Structural)]
pub enum PacketAction {
    Allow,
    Block,
    Log(usize),
}

/// A list of network buffers as NDIS hands it to a callout: its buffers in order, and
/// whether another list follows it.
pub struct NetBufferList {
    pub buffers: Vec<NetBuffer>,
    pub has_next: bool,
}

/// Folds one verdict into the action so far: `Block` always wins, `Log` wins over `Allow`
/// and an earlier `Log`, and `Allow` keeps the action.
pub open spec fn merge_verdict(action: PacketAction, verdict: PacketAction) -> PacketAction {
    match verdict {
        PacketAction::Block => PacketAction::Block,
        PacketAction::Log(data) => if action is Block {
            action
        } else {
            PacketAction::Log(data)
        },
        PacketAction::Allow => action,
    }
}

/// The action after the first `k` buffers, where `verdicts[i]` is the verdict on the packet
/// of buffer `i`; buffers that yield no packet give no verdict.
pub open spec fn fold_verdicts(bufs: Seq<NetBuffer>, verdicts: Seq<PacketAction>, k: nat) -> PacketAction
    decreases k,
{
    if k == 0 {
        PacketAction::Allow
    } else {
        let before = fold_verdicts(bufs, verdicts, (k - 1) as nat);
        if packet_bytes(bufs[k - 1]) is Some {
            merge_verdict(before, verdicts[k - 1])
        } else {
            before
        }
    }
}

/// The verdicts that `inspect` gives on the packets of `bufs` (`Allow` where a buffer
/// yields no packet).
pub open spec fn verdicts_of(bufs: Seq<NetBuffer>, inspect: spec_fn(Seq<u8>) -> PacketAction) -> Seq<PacketAction> {
    Seq::new(
        bufs.len(),
        |i: int|
            match packet_bytes(bufs[i]) {
                Some(bytes) => inspect(bytes),
                None => PacketAction::Allow,
            },
    )
}

/// The action on a buffer list whose packets `inspect` judges: `Allow` when another list
/// follows, else the fold of the verdicts on all its buffers.
pub open spec fn list_action(list: NetBufferList, inspect: spec_fn(Seq<u8>) -> PacketAction) -> PacketAction {
    if list.has_next {
        PacketAction::Allow
    } else {
        fold_verdicts(list.buffers@, verdicts_of(list.buffers@, inspect), list.buffers@.len())
    }
}

/// `packets[i]` is the packet of buffer `i` and `verdicts[i]` a verdict that `f` can give
/// on it, for every buffer that yields a packet.
pub open spec fn inspected<F: Fn(&Packet) -> PacketAction>(
    bufs: Seq<NetBuffer>,
    packets: Seq<Packet>,
    verdicts: Seq<PacketAction>,
    f: F,
) -> bool {
    &&& packets.len() == bufs.len()
    &&& verdicts.len() == bufs.len()
    &&& forall|i: int|
        0 <= i < bufs.len() && (#[trigger] packet_bytes(bufs[i])) is Some ==> {
            &&& packet_bytes(bufs[i]) == Some(packets[i]@)
            &&& f.ensures((&packets[i],), verdicts[i])
        }
}

/// The fold depends only on the verdicts on buffers that yield a packet.
pub proof fn lemma_fold_verdicts_same(bufs: Seq<NetBuffer>, v1: Seq<PacketAction>, v2: Seq<PacketAction>, k: nat)
    requires
        k <= bufs.len(),
        forall|i: int| 0 <= i < k && (#[trigger] packet_bytes(bufs[i])) is Some ==> v1[i] == v2[i],
    ensures
        fold_verdicts(bufs, v1, k) == fold_verdicts(bufs, v2, k),
    decreases k,
{
    if k > 0 {
        lemma_fold_verdicts_same(bufs, v1, v2, (k - 1) as nat);
        if packet_bytes(bufs[k - 1]) is Some {
            assert(v1[k - 1] == v2[k - 1]);
        }
    }
}

/// Over the buffers that yield a packet, the fold is `Block` exactly when some verdict is
/// `Block`; it is `Allow` exactly when every verdict is `Allow`; and when it is `Log(d)`,
/// `Log(d)` is a verdict after which only `Allow` verdicts follow.
pub proof fn lemma_fold_verdicts_outcome(bufs: Seq<NetBuffer>, verdicts: Seq<PacketAction>, k: nat)
    requires
        k <= bufs.len(),
        k <= verdicts.len(),
    ensures
        fold_verdicts(bufs, verdicts, k) is Block <==> exists|i: int|
            0 <= i < k && (#[trigger] packet_bytes(bufs[i])) is Some && verdicts[i] is Block,
        fold_verdicts(bufs, verdicts, k) is Allow <==> forall|i: int|
            0 <= i < k && (#[trigger] packet_bytes(bufs[i])) is Some ==> verdicts[i] is Allow,
        fold_verdicts(bufs, verdicts, k) matches PacketAction::Log(d) ==> exists|i: int|
            0 <= i < k && (#[trigger] packet_bytes(bufs[i])) is Some && verdicts[i] == PacketAction::Log(d)
                && forall|j: int| i < j < k && packet_bytes(bufs[j]) is Some ==> verdicts[j] is Allow,
    decreases k,
{
    if k > 0 {
        let k1 = (k - 1) as nat;
        lemma_fold_verdicts_outcome(bufs, verdicts, k1);
        let before = fold_verdicts(bufs, verdicts, k1);
        let last = k - 1;
        if packet_bytes(bufs[last]) is Some {
            match verdicts[last] {
                PacketAction::Block => {
                    assert(packet_bytes(bufs[last]) is Some && verdicts[last] is Block);
                },
                PacketAction::Log(d) => {
                    if before is Block {
                        let w = choose|i: int|
                            0 <= i < k1 && (#[trigger] packet_bytes(bufs[i])) is Some && verdicts[i] is Block;
                        assert(0 <= w < k && packet_bytes(bufs[w]) is Some && verdicts[w] is Block);
                    } else {
                        assert forall|i: int|
                            0 <= i < k && (#[trigger] packet_bytes(bufs[i])) is Some implies !(verdicts[i] is Block) by {}
                        assert(forall|j: int| last < j < k && packet_bytes(bufs[j]) is Some ==> verdicts[j] is Allow);
                    }
                },
                PacketAction::Allow => {
                    if before is Block {
                        let w = choose|i: int|
                            0 <= i < k1 && (#[trigger] packet_bytes(bufs[i])) is Some && verdicts[i] is Block;
                        assert(0 <= w < k && packet_bytes(bufs[w]) is Some && verdicts[w] is Block);
                    }
                    if let PacketAction::Log(d) = before {
                        let w = choose|i: int|
                            0 <= i < k1 && (#[trigger] packet_bytes(bufs[i])) is Some && verdicts[i] == PacketAction::Log(d)
                                && forall|j: int| i < j < k1 && packet_bytes(bufs[j]) is Some ==> verdicts[j] is Allow;
                        assert(0 <= w < k && packet_bytes(bufs[w]) is Some && verdicts[w] == PacketAction::Log(d)
                            && forall|j: int| w < j < k && packet_bytes(bufs[j]) is Some ==> verdicts[j] is Allow);
                    }
                },
            }
        } else {
            if before is Block {
                let w = choose|i: int|
                    0 <= i < k1 && (#[trigger] packet_bytes(bufs[i])) is Some && verdicts[i] is Block;
                assert(0 <= w < k && packet_bytes(bufs[w]) is Some && verdicts[w] is Block);
            }
            if let PacketAction::Log(d) = before {
                let w = choose|i: int|
                    0 <= i < k1 && (#[trigger] packet_bytes(bufs[i])) is Some && verdicts[i] == PacketAction::Log(d)
                        && forall|j: int| i < j < k1 && packet_bytes(bufs[j]) is Some ==> verdicts[j] is Allow;
                assert(0 <= w < k && packet_bytes(bufs[w]) is Some && verdicts[w] == PacketAction::Log(d)
                    && forall|j: int| w < j < k && packet_bytes(bufs[j]) is Some ==> verdicts[j] is Allow);
            }
        }
    }
}

/// The fold depends on the buffers only through which of them yield a packet, and on the
/// verdicts only through those on such buffers.
pub proof fn lemma_fold_verdicts_congruent(
    b1: Seq<NetBuffer>,
    v1: Seq<PacketAction>,
    b2: Seq<NetBuffer>,
    v2: Seq<PacketAction>,
    k: nat,
)
    requires
        k <= b1.len(),
        k <= b2.len(),
        forall|i: int| 0 <= i < k ==> ((#[trigger] packet_bytes(b1[i])) is Some) == (packet_bytes(b2[i]) is Some),
        forall|i: int| 0 <= i < k && (#[trigger] packet_bytes(b1[i])) is Some ==> v1[i] == v2[i],
    ensures
        fold_verdicts(b1, v1, k) == fold_verdicts(b2, v2, k),
    decreases k,
{
    if k > 0 {
        lemma_fold_verdicts_congruent(b1, v1, b2, v2, (k - 1) as nat);
        assert(packet_bytes(b1[k - 1]) is Some == packet_bytes(b2[k - 1]) is Some);
    }
}

/// `Allow` is neutral: taking out a buffer whose verdict is `Allow`, or that yields no
/// packet, leaves the fold as it was.
pub proof fn lemma_fold_without_silent_buffer(bufs: Seq<NetBuffer>, verdicts: Seq<PacketAction>, k: int, n: nat)
    requires
        0 <= k < n,
        n <= bufs.len(),
        n <= verdicts.len(),
        packet_bytes(bufs[k]) is None || verdicts[k] is Allow,
    ensures
        fold_verdicts(bufs.remove(k), verdicts.remove(k), (n - 1) as nat) == fold_verdicts(bufs, verdicts, n),
    decreases n,
{
    let b2 = bufs.remove(k);
    let v2 = verdicts.remove(k);
    if n - 1 == k {
        assert forall|i: int| 0 <= i < k implies ((#[trigger] packet_bytes(b2[i])) is Some) == (packet_bytes(bufs[i]) is Some)
            && (packet_bytes(b2[i]) is Some ==> v2[i] == verdicts[i]) by {
            assert(b2[i] == bufs[i] && v2[i] == verdicts[i]);
        }
        lemma_fold_verdicts_congruent(b2, v2, bufs, verdicts, k as nat);
    } else {
        lemma_fold_without_silent_buffer(bufs, verdicts, k, (n - 1) as nat);
        assert(b2[n - 2] == bufs[n - 1] && v2[n - 2] == verdicts[n - 1]);
    }
}

/// `Block` absorbs and `Allow` is neutral: appending a `Block` verdict gives `Block` whatever
/// came before, and after a `Block`, any further verdicts leave `Block`.
pub proof fn lemma_fold_block_absorbs(bufs: Seq<NetBuffer>, verdicts: Seq<PacketAction>, k: int, n: nat)
    requires
        0 <= k < n,
        n <= bufs.len(),
        n <= verdicts.len(),
        packet_bytes(bufs[k]) is Some,
        verdicts[k] is Block,
    ensures
        fold_verdicts(bufs, verdicts, n) == PacketAction::Block,
{
    lemma_fold_verdicts_outcome(bufs, verdicts, n);
    assert(0 <= k < n && packet_bytes(bufs[k]) is Some && verdicts[k] is Block);
}

/// The indices, in order, of the first `k` buffers that yield no packet.
pub open spec fn unparsed_buffers(bufs: Seq<NetBuffer>, k: nat) -> Seq<usize>
    decreases k,
{
    if k == 0 {
        Seq::empty()
    } else {
        let before = unparsed_buffers(bufs, (k - 1) as nat);
        if packet_bytes(bufs[k - 1]) is None {
            before.push((k - 1) as usize)
        } else {
            before
        }
    }
}

/// The buffers that `inspect_packets` finds no packet in, by index and in order, for the
/// caller to report one by one. A list that another list follows is not inspected and has
/// none.
pub fn failed_buffers(buf_list: &NetBufferList) -> (failed: Vec<usize>)
    ensures
        failed@ == (if buf_list.has_next {
            Seq::<usize>::empty()
        } else {
            unparsed_buffers(buf_list.buffers@, buf_list.buffers@.len())
        }),
{
    let mut failed: Vec<usize> = Vec::new();
    if buf_list.has_next {
        return failed;
    }
    let mut i: usize = 0;
    while i < buf_list.buffers.len()
        invariant
            i <= buf_list.buffers@.len(),
            failed@ == unparsed_buffers(buf_list.buffers@, i as nat),
        decreases buf_list.buffers@.len() - i,
    {
        if !buf_list.buffers[i].yields_packet() {
            failed.push(i);
        }
        i = i + 1;
    }
    failed
}

/// Runs `inspect_packet` on the packet of every buffer of a single buffer list and folds
/// the verdicts: any `Block` wins, else the last `Log`, else `Allow`. A list that another
/// list follows, and a list without buffers, get `Allow` without inspection.
pub fn inspect_packets<F: Fn(&Packet) -> PacketAction>(buf_list: &NetBufferList, inspect_packet: F) -> (action: PacketAction)
    requires
        forall|p: &Packet| inspect_packet.requires((p,)),
    ensures
        buf_list.has_next ==> action == PacketAction::Allow,
        !buf_list.has_next ==> exists|packets: Seq<Packet>, verdicts: Seq<PacketAction>|
            inspected(buf_list.buffers@, packets, verdicts, inspect_packet)
                && action == fold_verdicts(buf_list.buffers@, verdicts, buf_list.buffers@.len()),
{
    let mut action = PacketAction::Allow;
    if buf_list.buffers.len() == 0 {
        proof {
            let packets = Seq::<Packet>::empty();
            let verdicts = Seq::<PacketAction>::empty();
            assert(inspected(buf_list.buffers@, packets, verdicts, inspect_packet));
        }
        return action;
    }
    if buf_list.has_next {
        return action;
    }
    let ghost bufs = buf_list.buffers@;
    let ghost mut packets = Seq::<Packet>::empty();
    let ghost mut verdicts = Seq::<PacketAction>::empty();
    let mut i: usize = 0;
    while i < buf_list.buffers.len()
        invariant
            bufs == buf_list.buffers@,
            i <= bufs.len(),
            forall|p: &Packet| inspect_packet.requires((p,)),
            inspected(bufs.take(i as int), packets, verdicts, inspect_packet),
            action == fold_verdicts(bufs, verdicts, i as nat),
        decreases bufs.len() - i,
    {
        let ghost before = action;
        proof {
            assert forall|j: int| 0 <= j < i implies packet_bytes(bufs[j]) == packet_bytes(bufs.take(i as int)[j]) by {}
            lemma_fold_verdicts_same(bufs, verdicts, verdicts.push(PacketAction::Allow), i as nat);
        }
        let ghost mut verdict = PacketAction::Allow;
        let ghost mut packet: Packet = arbitrary();
        if let Some(pkt) = Packet::new(&buf_list.buffers[i]) {
            let v = inspect_packet(&pkt);
            match v {
                PacketAction::Block => {
                    action = PacketAction::Block;
                },
                PacketAction::Log(data) if !matches!(action, PacketAction::Block) => {
                    action = PacketAction::Log(data);
                },
                _ => {},
            }
            proof {
                verdict = v;
                packet = pkt;
                lemma_fold_verdicts_same(bufs, verdicts, verdicts.push(v), i as nat);
            }
        }
        proof {
            let old_packets = packets;
            let old_verdicts = verdicts;
            packets = packets.push(packet);
            verdicts = verdicts.push(verdict);
            let t = bufs.take(i + 1);
            assert forall|j: int| 0 <= j < t.len() && (#[trigger] packet_bytes(t[j])) is Some implies {
                &&& packet_bytes(t[j]) == Some(packets[j]@)
                &&& inspect_packet.ensures((&packets[j],), verdicts[j])
            } by {
                if j < i {
                    assert(t[j] == bufs.take(i as int)[j]);
                    assert(packets[j] == old_packets[j]);
                    assert(verdicts[j] == old_verdicts[j]);
                }
            }
        }
        i = i + 1;
    }
    proof {
        assert(bufs.take(bufs.len() as int) =~= bufs);
    }
    action
}

/// The indices reported for the first `k` buffers are, in increasing order, exactly those
/// of the buffers among them that yield no packet.
pub proof fn lemma_unparsed_buffers_are_the_failed_ones(bufs: Seq<NetBuffer>, k: nat)
    requires
        k <= bufs.len(),
        bufs.len() <= usize::MAX,
    ensures
        forall|j: int| 0 <= j < unparsed_buffers(bufs, k).len() ==> {
            &&& #[trigger] unparsed_buffers(bufs, k)[j] < k
            &&& packet_bytes(bufs[unparsed_buffers(bufs, k)[j] as int]) is None
        },
        forall|a: int, b: int|
            0 <= a < b < unparsed_buffers(bufs, k).len() ==> #[trigger] unparsed_buffers(bufs, k)[a]
                < #[trigger] unparsed_buffers(bufs, k)[b],
        forall|i: int| 0 <= i < k && (#[trigger] packet_bytes(bufs[i])) is None ==> exists|j: int|
            0 <= j < unparsed_buffers(bufs, k).len() && unparsed_buffers(bufs, k)[j] == i,
    decreases k,
{
    if k > 0 {
        let k1 = (k - 1) as nat;
        lemma_unparsed_buffers_are_the_failed_ones(bufs, k1);
        let before = unparsed_buffers(bufs, k1);
        let now = unparsed_buffers(bufs, k);
        assert forall|j: int| 0 <= j < before.len() implies now[j] == before[j] by {}
        assert forall|i: int| 0 <= i < k && (#[trigger] packet_bytes(bufs[i])) is None implies exists|j: int|
            0 <= j < now.len() && now[j] == i by {
            if i < k1 {
                let j = choose|j: int| 0 <= j < before.len() && before[j] == i;
                assert(now[j] == i);
            } else {
                assert(now == before.push((k - 1) as usize));
                assert(now[now.len() - 1] == i);
            }
        }
    }
}

} // verus!
