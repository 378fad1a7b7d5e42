//! Frames: a fixed 40-byte header followed by as many packets as it counts.

use vstd::prelude::*;
use crate::bytes::{le_u16, le_u32, le_u64, read_u16, read_u32, read_u64};
use crate::error::FrameError;
use crate::packet::{Packet, PacketView};

verus! {

/// Bytes taken by a frame header.
pub const FRAME_HEADER_LEN: usize = 40;

/// The connection a frame was captured on, two bytes on the wire.
#[derive(Clone, Copy, Debug, PartialEq, Eq, Structural)]
pub enum ConnectionType {
    Unset,
    Zone,
    Chat,
    Lobby,
}

impl ConnectionType {
    /// The connection type that `value` stands for, if any.
    pub open spec fn of_wire(value: int) -> Option<ConnectionType> {
        if value == 0 {
            Some(ConnectionType::Unset)
        } else if value == 1 {
            Some(ConnectionType::Zone)
        } else if value == 2 {
            Some(ConnectionType::Chat)
        } else if value == 3 {
            Some(ConnectionType::Lobby)
        } else {
            None
        }
    }

    /// Decodes a wire value.
    pub fn from_wire(value: u16) -> (r: Option<ConnectionType>)
        ensures
            r == Self::of_wire(value as int),
    {
        match value {
            0 => Some(ConnectionType::Unset),
            1 => Some(ConnectionType::Zone),
            2 => Some(ConnectionType::Chat),
            3 => Some(ConnectionType::Lobby),
            _ => None,
        }
    }
}

/// How the packets of a frame are stored, one byte on the wire.
#[derive(Clone, Copy, Debug, PartialEq, Eq, Structural)]
pub enum CompressionType {
    Uncompressed,
    Oodle,
}

impl CompressionType {
    /// The compression type that `value` stands for, if any.
    pub open spec fn of_wire(value: int) -> Option<CompressionType> {
        if value == 0 {
            Some(CompressionType::Uncompressed)
        } else if value == 2 {
            Some(CompressionType::Oodle)
        } else {
            None
        }
    }

    /// Decodes a wire value.
    pub fn from_wire(value: u8) -> (r: Option<CompressionType>)
        ensures
            r == Self::of_wire(value as int),
    {
        match value {
            0 => Some(CompressionType::Uncompressed),
            2 => Some(CompressionType::Oodle),
            _ => None,
        }
    }
}

/// The fixed header of a frame.
#[derive(Clone, Copy, Debug, PartialEq, Eq)]
pub struct FrameHeader {
    pub prefix: [u8; 16],
    pub time_value: u64,
    pub total_size: u32,
    pub protocol: ConnectionType,
    pub count: u16,
    pub version: u8,
    pub compression: CompressionType,
    pub unk: u16,
    pub decompressed_length: u32,
}

/// A frame header as a mathematical value.
pub struct FrameHeaderView {
    pub prefix: Seq<u8>,
    pub time_value: u64,
    pub total_size: u32,
    pub protocol: ConnectionType,
    pub count: u16,
    pub version: u8,
    pub compression: CompressionType,
    pub unk: u16,
    pub decompressed_length: u32,
}

impl View for FrameHeader {
    type V = FrameHeaderView;

    open spec fn view(&self) -> FrameHeaderView {
        FrameHeaderView {
            prefix: self.prefix@,
            time_value: self.time_value,
            total_size: self.total_size,
            protocol: self.protocol,
            count: self.count,
            version: self.version,
            compression: self.compression,
            unk: self.unk,
            decompressed_length: self.decompressed_length,
        }
    }
}

impl FrameHeaderView {
    /// What the first 40 bytes of `s` decode to.
    pub open spec fn decode(s: Seq<u8>) -> Result<FrameHeaderView, FrameError> {
        if s.len() < 40 {
            Err(FrameError::Truncated { offset: 0 })
        } else {
            match ConnectionType::of_wire(le_u16(s, 28)) {
                None => Err(
                    FrameError::UnknownConnectionType { offset: 28, value: le_u16(s, 28) as u16 },
                ),
                Some(protocol) => match CompressionType::of_wire(s[33] as int) {
                    None => Err(FrameError::UnknownCompressionType { offset: 33, code: s[33] }),
                    Some(compression) => Ok(
                        FrameHeaderView {
                            prefix: s.subrange(0, 16),
                            time_value: le_u64(s, 16) as u64,
                            total_size: le_u32(s, 24) as u32,
                            protocol,
                            count: le_u16(s, 30) as u16,
                            version: s[32],
                            compression,
                            unk: le_u16(s, 34) as u16,
                            decompressed_length: le_u32(s, 36) as u32,
                        },
                    ),
                },
            }
        }
    }
}

impl FrameHeader {
    /// Decodes the frame header at the start of `data`.
    pub fn parse(data: &[u8]) -> (r: Result<FrameHeader, FrameError>)
        ensures
            match r {
                Ok(h) => FrameHeaderView::decode(data@) == Ok::<FrameHeaderView, FrameError>(h@),
                Err(e) => FrameHeaderView::decode(data@) == Err::<FrameHeaderView, FrameError>(e),
            },
    {
        if data.len() < FRAME_HEADER_LEN {
            return Err(FrameError::Truncated { offset: 0 });
        }
        let wire_protocol = read_u16(data, 28);
        let protocol = match ConnectionType::from_wire(wire_protocol) {
            Some(protocol) => protocol,
            None => {
                return Err(FrameError::UnknownConnectionType { offset: 28, value: wire_protocol });
            },
        };
        let compression = match CompressionType::from_wire(data[33]) {
            Some(compression) => compression,
            None => {
                return Err(FrameError::UnknownCompressionType { offset: 33, code: data[33] });
            },
        };
        let mut prefix: [u8; 16] = [0u8; 16];
        let mut i: usize = 0;
        while i < 16
            invariant
                i <= 16,
                data.len() >= 40,
                forall|k: int| 0 <= k < i ==> prefix@[k] == data@[k],
            decreases 16 - i,
        {
            prefix[i] = data[i];
            i = i + 1;
        }
        assert(prefix@ =~= data@.subrange(0, 16));
        Ok(
            FrameHeader {
                prefix,
                time_value: read_u64(data, 16),
                total_size: read_u32(data, 24),
                protocol,
                count: read_u16(data, 30),
                version: data[32],
                compression,
                unk: read_u16(data, 34),
                decompressed_length: read_u32(data, 36),
            },
        )
    }
}

/// A frame: its header and the packets it carries, in wire order.
#[derive(Clone, Debug, PartialEq, Eq)]
pub struct Frame {
    pub header: FrameHeader,
    pub packets: Vec<Packet>,
}

/// A frame as a mathematical value.
pub struct FrameView {
    pub header: FrameHeaderView,
    pub packets: Seq<PacketView>,
}

impl View for Frame {
    type V = FrameView;

    open spec fn view(&self) -> FrameView {
        FrameView { header: self.header@, packets: self.packets@.map_values(|p: Packet| p@) }
    }
}

impl FrameView {
    /// The frame holds as many packets as its header counts, each of them
    /// well formed.
    pub open spec fn wf(self) -> bool {
        &&& self.packets.len() == self.header.count
        &&& forall|i: int| 0 <= i < self.packets.len() ==> (#[trigger] self.packets[i]).wf()
    }

    /// What `count` packets laid end to end from `at` on decode to. One
    /// packet that fails makes the whole run fail.
    pub open spec fn decode_packets(s: Seq<u8>, at: int, count: nat) -> Result<
        Seq<PacketView>,
        FrameError,
    >
        decreases count,
    {
        if count == 0 {
            Ok(Seq::empty())
        } else {
            match PacketView::decode(s, at) {
                Err(e) => Err(e),
                Ok(first) => match Self::decode_packets(
                    s,
                    at + first.header.size,
                    (count - 1) as nat,
                ) {
                    Err(e) => Err(e),
                    Ok(rest) => Ok(seq![first] + rest),
                },
            }
        }
    }

    /// What `s` decodes to: the header, then the packets it counts. Bytes
    /// after the last packet are not looked at.
    pub open spec fn decode(s: Seq<u8>) -> Result<FrameView, FrameError> {
        match FrameHeaderView::decode(s) {
            Err(e) => Err(e),
            Ok(header) => match Self::decode_packets(s, 40, header.count as nat) {
                Err(e) => Err(e),
                Ok(packets) => Ok(FrameView { header, packets }),
            },
        }
    }
}

/// A run of packets that decodes has exactly the number of packets asked
/// for, and each of them is well formed.
pub proof fn lemma_decode_packets_wf(s: Seq<u8>, at: int, count: nat)
    requires
        0 <= at,
        FrameView::decode_packets(s, at, count) is Ok,
    ensures
        FrameView::decode_packets(s, at, count)->Ok_0.len() == count,
        forall|i: int|
            0 <= i < count ==> (#[trigger] FrameView::decode_packets(s, at, count)->Ok_0[i]).wf(),
    decreases count,
{
    if count > 0 {
        let first = PacketView::decode(s, at)->Ok_0;
        lemma_decode_packets_wf(s, at + first.header.size, (count - 1) as nat);
        let rest = FrameView::decode_packets(s, at + first.header.size, (count - 1) as nat)->Ok_0;
        let all = FrameView::decode_packets(s, at, count)->Ok_0;
        assert(all == seq![first] + rest);
        assert forall|i: int| 0 <= i < count implies (#[trigger] all[i]).wf() by {
            if i > 0 {
                assert(all[i] == rest[i - 1]);
            }
        }
    }
}

/// The number of packets decoded from a frame equals the count that its
/// header declares, and every packet's payload has the length that its
/// declared size leaves after its headers.
pub proof fn lemma_decode_wf(s: Seq<u8>)
    requires
        FrameView::decode(s) is Ok,
    ensures
        FrameView::decode(s)->Ok_0.wf(),
{
    let header = FrameHeaderView::decode(s)->Ok_0;
    lemma_decode_packets_wf(s, 40, header.count as nat);
}

impl Frame {
    /// See [`FrameView::wf`].
    pub open spec fn wf(&self) -> bool {
        self@.wf()
    }

    /// Whether the frame holds as many packets as its header counts, each of
    /// them well formed.
    pub fn is_well_formed(&self) -> (ok: bool)
        ensures
            ok == self.wf(),
    {
        if self.packets.len() != self.header.count as usize {
            return false;
        }
        let mut i: usize = 0;
        while i < self.packets.len()
            invariant
                i <= self.packets@.len(),
                self.packets@.len() == self.header.count,
                forall|k: int| 0 <= k < i ==> (#[trigger] self@.packets[k]).wf(),
            decreases self.packets@.len() - i,
        {
            if !self.packets[i].is_well_formed() {
                assert(!self@.packets[i as int].wf());
                return false;
            }
            i = i + 1;
        }
        true
    }

    /// Decodes a frame from the front of `data`: all of it or an error.
    pub fn parse(data: &[u8]) -> (r: Result<Frame, FrameError>)
        ensures
            match r {
                Ok(f) => FrameView::decode(data@) == Ok::<FrameView, FrameError>(f@),
                Err(e) => FrameView::decode(data@) == Err::<FrameView, FrameError>(e),
            },
            r matches Ok(f) ==> f.wf() && f.packets@.len() == f.header.count,
    {
        let header = match FrameHeader::parse(data) {
            Ok(header) => header,
            Err(e) => { return Err(e); },
        };
        let count = header.count;
        let len = data.len();
        let mut packets: Vec<Packet> = Vec::new();
        let mut at: usize = FRAME_HEADER_LEN;
        let mut i: u16 = 0;
        while i < count
            invariant
                i <= count,
                count == header.count,
                FrameHeaderView::decode(data@) == Ok::<FrameHeaderView, FrameError>(header@),
                len == data.len(),
                40 <= at <= len,
                packets@.len() == i,
                FrameView::decode_packets(data@, 40, count as nat) == match FrameView::decode_packets(
                    data@,
                    at as int,
                    (count - i) as nat,
                ) {
                    Ok(rest) => Ok::<Seq<PacketView>, FrameError>(
                        packets@.map_values(|p: Packet| p@) + rest,
                    ),
                    Err(e) => Err(e),
                },
            decreases count - i,
        {
            let ghost done = packets@.map_values(|p: Packet| p@);
            match Packet::parse(data, at) {
                Err(e) => {
                    return Err(e);
                },
                Ok(packet) => {
                    proof {
                        let next = at + packet.header.size;
                        match FrameView::decode_packets(data@, next, (count - i - 1) as nat) {
                            Ok(rest) => {
                                assert((done + seq![packet@]) + rest =~= done + (seq![packet@]
                                    + rest));
                            },
                            Err(_) => {},
                        }
                    }
                    at = at + packet.header.size as usize;
                    packets.push(packet);
                    i = i + 1;
                    assert(packets@.map_values(|p: Packet| p@) =~= done + seq![packet@]);
                },
            }
        }
        let frame = Frame { header, packets };
        proof {
            assert(frame@.packets =~= frame@.packets + Seq::<PacketView>::empty());
            lemma_decode_wf(data@);
        }
        Ok(frame)
    }
}

} // verus!
