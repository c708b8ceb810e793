use vstd::prelude::*;

verus! {

/// A network buffer as NDIS describes it: the length of the data it carries, and the
/// bytes that NDIS hands out for it when asked for that many bytes (`None` when it could
/// hand out none).
pub struct NetBuffer {
    pub data_length: u32,
    pub data: Option<Vec<u8>>,
}

/// The bytes of the packet that a buffer yields: its first `data_length` bytes, when it
/// carries some data and NDIS hands out at least that many bytes.
pub open spec fn packet_bytes(netbuf: NetBuffer) -> Option<Seq<u8>> {
    if netbuf.data_length == 0 {
        None
    } else {
        match netbuf.data {
            Some(d) => if d@.len() >= netbuf.data_length {
                Some(d@.take(netbuf.data_length as int))
            } else {
                None
            },
            None => None,
        }
    }
}

impl NetBuffer {
    /// Whether the buffer yields a packet: it carries data and NDIS hands out all of it.
    pub fn yields_packet(&self) -> (yields: bool)
        ensures
            yields == packet_bytes(*self) is Some,
    {
        if self.data_length == 0 {
            return false;
        }
        match &self.data {
            Some(d) => d.len() >= self.data_length as usize,
            None => false,
        }
    }
}

/// A copy of the bytes of one network packet.
pub struct Packet {
    allocated: Vec<u8>,
}

impl View for Packet {
    type V = Seq<u8>;

    closed spec fn view(&self) -> Seq<u8> {
        self.allocated@
    }
}

impl Packet {
    /// Copies the packet out of a network buffer; `None` when the buffer carries no data
    /// or NDIS cannot hand the data out.
    pub fn new(netbuf: &NetBuffer) -> (pkt: Option<Self>)
        ensures
            match pkt {
                Some(p) => packet_bytes(*netbuf) == Some(p@),
                None => packet_bytes(*netbuf) is None,
            },
            pkt matches Some(p) ==> p@.len() == netbuf.data_length,
    {
        let packet_size = netbuf.data_length as usize;
        if packet_size == 0 {
            return None;
        }
        match &netbuf.data {
            None => None,
            Some(buf_ndis) => {
                if buf_ndis.len() < packet_size {
                    return None;
                }
                let mut mem_packet: Vec<u8> = Vec::new();
                let mut i: usize = 0;
                while i < packet_size
                    invariant
                        i <= packet_size,
                        packet_size <= buf_ndis@.len(),
                        mem_packet@ == buf_ndis@.take(i as int),
                    decreases packet_size - i,
                {
                    mem_packet.push(buf_ndis[i]);
                    i = i + 1;
                    assert(mem_packet@ =~= buf_ndis@.take(i as int));
                }
                Some(Packet { allocated: mem_packet })
            },
        }
    }

    /// The number of bytes in the packet.
    pub fn get_size(&self) -> (size: usize)
        ensures
            size == self@.len(),
    {
        self.allocated.len()
    }

    /// The byte at offset `i`.
    pub fn byte_at(&self, i: isize) -> (b: u8)
        requires
            0 <= i < self@.len(),
        ensures
            b == self@[i as int],
    {
        self.allocated[i as usize]
    }
}

/// A buffer yields a packet exactly when its data length is not 0 and NDIS hands out at
/// least that many bytes; the packet is then exactly the first `data_length` bytes handed
/// out, for every 32-bit length.
pub proof fn lemma_packet_is_leading_bytes(netbuf: NetBuffer)
    ensures
        packet_bytes(netbuf) is Some <==> (netbuf.data_length != 0 && (netbuf.data matches Some(d) && d@.len()
            >= netbuf.data_length)),
        packet_bytes(netbuf) matches Some(p) ==> {
            &&& p.len() == netbuf.data_length
            &&& netbuf.data matches Some(d) && forall|i: int| 0 <= i < p.len() ==> p[i] == d@[i]
        },
{
}

} // verus!
