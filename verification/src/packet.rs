//! Packets: the fixed header, the optional IPC header and the payload.

use vstd::prelude::*;
use vstd::slice::{slice_subrange, slice_to_vec};
use crate::bytes::{le_u16, le_u32, push_u16, push_u32, read_u16, read_u32, u16_le, u32_le};
use crate::bytes::{lemma_u16_encode_decode, lemma_u32_encode_decode};
use crate::error::FrameError;

verus! {

/// Bytes taken by a packet header, its two padding bytes included.
pub const PACKET_HEADER_LEN: u32 = 16;

/// Bytes taken by an IPC header.
pub const IPC_HEADER_LEN: u32 = 16;

/// The closed set of packet types, each with its 2-byte tag on the wire.
#[derive(Clone, Copy, Debug, PartialEq, Eq, Structural)]
pub enum PacketType {
    InitializeSession,
    InitializeEncryption,
    Ipc,
    KeepAlive,
    InitializationEncryptionResponse,
    KeepAliveResponse,
    ZoneInitialize,
}

impl PacketType {
    /// The tag that stands for this type on the wire.
    pub open spec fn tag(self) -> u16 {
        match self {
            PacketType::InitializeSession => 0x1,
            PacketType::InitializeEncryption => 0x9,
            PacketType::Ipc => 0x3,
            PacketType::KeepAlive => 0x7,
            PacketType::InitializationEncryptionResponse => 0xA,
            PacketType::KeepAliveResponse => 0x8,
            PacketType::ZoneInitialize => 0x2,
        }
    }

    /// The type that `tag` stands for, if any.
    pub open spec fn of_tag(tag: int) -> Option<PacketType> {
        if tag == 0x1 {
            Some(PacketType::InitializeSession)
        } else if tag == 0x9 {
            Some(PacketType::InitializeEncryption)
        } else if tag == 0x3 {
            Some(PacketType::Ipc)
        } else if tag == 0x7 {
            Some(PacketType::KeepAlive)
        } else if tag == 0xA {
            Some(PacketType::InitializationEncryptionResponse)
        } else if tag == 0x8 {
            Some(PacketType::KeepAliveResponse)
        } else if tag == 0x2 {
            Some(PacketType::ZoneInitialize)
        } else {
            None
        }
    }

    /// The short label that artifact names carry for this type.
    pub open spec fn label(self) -> Seq<char> {
        match self {
            PacketType::InitializeSession => "InitSession"@,
            PacketType::InitializeEncryption => "InitEncryption"@,
            PacketType::Ipc => "ipc"@,
            PacketType::KeepAlive => "KeepAlive"@,
            PacketType::InitializationEncryptionResponse => "InitEncryption"@,
            PacketType::KeepAliveResponse => "KeepAlive"@,
            PacketType::ZoneInitialize => "InitZone"@,
        }
    }

    /// Bytes of headers in front of the payload of a packet of this type.
    pub open spec fn overhead(self) -> u32 {
        if self == PacketType::Ipc {
            32
        } else {
            16
        }
    }

    /// Decodes a wire tag.
    pub fn from_tag(tag: u16) -> (r: Option<PacketType>)
        ensures
            r == Self::of_tag(tag as int),
            r matches Some(kind) ==> kind.tag() == tag,
    {
        match tag {
            0x1 => Some(PacketType::InitializeSession),
            0x9 => Some(PacketType::InitializeEncryption),
            0x3 => Some(PacketType::Ipc),
            0x7 => Some(PacketType::KeepAlive),
            0xA => Some(PacketType::InitializationEncryptionResponse),
            0x8 => Some(PacketType::KeepAliveResponse),
            0x2 => Some(PacketType::ZoneInitialize),
            _ => None,
        }
    }

    /// The wire tag of this type.
    pub fn to_tag(&self) -> (tag: u16)
        ensures
            tag == self.tag(),
            Self::of_tag(tag as int) == Some(*self),
    {
        match self {
            PacketType::InitializeSession => 0x1,
            PacketType::InitializeEncryption => 0x9,
            PacketType::Ipc => 0x3,
            PacketType::KeepAlive => 0x7,
            PacketType::InitializationEncryptionResponse => 0xA,
            PacketType::KeepAliveResponse => 0x8,
            PacketType::ZoneInitialize => 0x2,
        }
    }

    /// The short label of this type. A request and its response share one.
    pub fn to_string(&self) -> (text: &'static str)
        ensures
            text@ == self.label(),
    {
        match self {
            PacketType::InitializeSession => "InitSession",
            PacketType::InitializeEncryption => "InitEncryption",
            PacketType::Ipc => "ipc",
            PacketType::KeepAlive => "KeepAlive",
            PacketType::InitializationEncryptionResponse => "InitEncryption",
            PacketType::KeepAliveResponse => "KeepAlive",
            PacketType::ZoneInitialize => "InitZone",
        }
    }

    /// Bytes of headers in front of the payload: 32 with an IPC header,
    /// 16 without.
    pub fn header_overhead(&self) -> (n: u32)
        ensures
            n == self.overhead(),
    {
        match self {
            PacketType::Ipc => PACKET_HEADER_LEN + IPC_HEADER_LEN,
            _ => PACKET_HEADER_LEN,
        }
    }
}

/// The fixed 16 bytes in front of every packet: declared size, source and
/// destination entity, type tag, and two bytes that are kept as they came.
#[derive(Clone, Copy, Debug, PartialEq, Eq, Structural)]
pub struct PacketHeader {
    pub size: u32,
    pub src_entity: u32,
    pub dst_entity: u32,
    pub packet_type: PacketType,
    pub padding: u16,
}

impl PacketHeader {
    /// What the 16 bytes at `at` decode to.
    pub open spec fn decode(s: Seq<u8>, at: int) -> Result<PacketHeader, FrameError> {
        if at + 16 > s.len() {
            Err(FrameError::Truncated { offset: at as usize })
        } else {
            match PacketType::of_tag(le_u16(s, at + 12)) {
                None => Err(
                    FrameError::UnknownPacketType {
                        offset: at as usize,
                        tag: le_u16(s, at + 12) as u16,
                    },
                ),
                Some(kind) => Ok(
                    PacketHeader {
                        size: le_u32(s, at) as u32,
                        src_entity: le_u32(s, at + 4) as u32,
                        dst_entity: le_u32(s, at + 8) as u32,
                        packet_type: kind,
                        padding: le_u16(s, at + 14) as u16,
                    },
                ),
            }
        }
    }

    /// Length of the payload that follows the headers, where the declared
    /// size covers them.
    pub open spec fn payload_len(self) -> int {
        self.size - self.packet_type.overhead()
    }

    /// Decodes the packet header at `at`.
    pub fn parse(data: &[u8], at: usize) -> (r: Result<PacketHeader, FrameError>)
        ensures
            r == Self::decode(data@, at as int),
    {
        if at > data.len() || data.len() - at < 16 {
            return Err(FrameError::Truncated { offset: at });
        }
        let tag = read_u16(data, at + 12);
        match PacketType::from_tag(tag) {
            None => Err(FrameError::UnknownPacketType { offset: at, tag }),
            Some(kind) => Ok(
                PacketHeader {
                    size: read_u32(data, at),
                    src_entity: read_u32(data, at + 4),
                    dst_entity: read_u32(data, at + 8),
                    packet_type: kind,
                    padding: read_u16(data, at + 14),
                },
            ),
        }
    }
}

/// A segment header: declared size and the two actors, 12 bytes.
#[derive(Clone, Copy, Debug, PartialEq, Eq, Structural)]
pub struct PacketSegment {
    pub size: u32,
    pub source_actor: u32,
    pub target_actor: u32,
}

impl PacketSegment {
    /// What the 12 bytes at `at` decode to.
    pub open spec fn decode(s: Seq<u8>, at: int) -> Result<PacketSegment, FrameError> {
        if at + 12 > s.len() {
            Err(FrameError::Truncated { offset: at as usize })
        } else {
            Ok(
                PacketSegment {
                    size: le_u32(s, at) as u32,
                    source_actor: le_u32(s, at + 4) as u32,
                    target_actor: le_u32(s, at + 8) as u32,
                },
            )
        }
    }

    /// Decodes the segment header at `at`.
    pub fn parse(data: &[u8], at: usize) -> (r: Result<PacketSegment, FrameError>)
        ensures
            r == Self::decode(data@, at as int),
    {
        if at > data.len() || data.len() - at < 12 {
            return Err(FrameError::Truncated { offset: at });
        }
        Ok(
            PacketSegment {
                size: read_u32(data, at),
                source_actor: read_u32(data, at + 4),
                target_actor: read_u32(data, at + 8),
            },
        )
    }
}

/// The 16 bytes that follow the packet header of an IPC packet.
#[derive(Clone, Copy, Debug, PartialEq, Eq, Structural)]
pub struct PacketIPCHeader {
    pub unk: u16,
    pub opcode: u16,
    pub unk1: u16,
    pub server_id: u16,
    pub timestamp: u32,
    pub unk2: u32,
}

impl PacketIPCHeader {
    /// What the 16 bytes at `at` decode to.
    pub open spec fn decode(s: Seq<u8>, at: int) -> Result<PacketIPCHeader, FrameError> {
        if at + 16 > s.len() {
            Err(FrameError::Truncated { offset: at as usize })
        } else {
            Ok(
                PacketIPCHeader {
                    unk: le_u16(s, at) as u16,
                    opcode: le_u16(s, at + 2) as u16,
                    unk1: le_u16(s, at + 4) as u16,
                    server_id: le_u16(s, at + 6) as u16,
                    timestamp: le_u32(s, at + 8) as u32,
                    unk2: le_u32(s, at + 12) as u32,
                },
            )
        }
    }

    /// The 16 bytes that this header is written as.
    pub open spec fn encode(self) -> Seq<u8> {
        u16_le(self.unk) + u16_le(self.opcode) + u16_le(self.unk1) + u16_le(self.server_id)
            + u32_le(self.timestamp) + u32_le(self.unk2)
    }

    /// Decodes the IPC header at `at`.
    pub fn parse(data: &[u8], at: usize) -> (r: Result<PacketIPCHeader, FrameError>)
        ensures
            r == Self::decode(data@, at as int),
    {
        if at > data.len() || data.len() - at < 16 {
            return Err(FrameError::Truncated { offset: at });
        }
        Ok(
            PacketIPCHeader {
                unk: read_u16(data, at),
                opcode: read_u16(data, at + 2),
                unk1: read_u16(data, at + 4),
                server_id: read_u16(data, at + 6),
                timestamp: read_u32(data, at + 8),
                unk2: read_u32(data, at + 12),
            },
        )
    }

    /// Writes the header out in the layout it was read in.
    pub fn to_bytes(&self) -> (out: Vec<u8>)
        ensures
            out@ == self.encode(),
            out@.len() == 16,
    {
        let mut out: Vec<u8> = Vec::new();
        push_u16(&mut out, self.unk);
        push_u16(&mut out, self.opcode);
        push_u16(&mut out, self.unk1);
        push_u16(&mut out, self.server_id);
        push_u32(&mut out, self.timestamp);
        push_u32(&mut out, self.unk2);
        assert(out@ =~= self.encode());
        out
    }
}

/// Writing out a decoded IPC header gives back the 16 bytes it was decoded
/// from.
pub proof fn lemma_ipc_header_encode_decode(s: Seq<u8>, at: int)
    requires
        0 <= at,
        at + 16 <= s.len(),
    ensures
        PacketIPCHeader::decode(s, at) is Ok,
        PacketIPCHeader::decode(s, at)->Ok_0.encode() == s.subrange(at, at + 16),
{
    lemma_u16_encode_decode(s, at);
    lemma_u16_encode_decode(s, at + 2);
    lemma_u16_encode_decode(s, at + 4);
    lemma_u16_encode_decode(s, at + 6);
    lemma_u32_encode_decode(s, at + 8);
    lemma_u32_encode_decode(s, at + 12);
    let h = PacketIPCHeader::decode(s, at)->Ok_0;
    assert(h.encode() =~= s.subrange(at, at + 2) + s.subrange(at + 2, at + 4) + s.subrange(
        at + 4,
        at + 6,
    ) + s.subrange(at + 6, at + 8) + s.subrange(at + 8, at + 12) + s.subrange(at + 12, at + 16));
    assert(h.encode() =~= s.subrange(at, at + 16));
}

/// Decoding a written IPC header gives the header back.
pub proof fn lemma_ipc_header_decode_encode(h: PacketIPCHeader)
    ensures
        h.encode().len() == 16,
        PacketIPCHeader::decode(h.encode(), 0) == Ok::<PacketIPCHeader, FrameError>(h),
{
    let s = h.encode();
    assert(s.len() == 16);
    assert(s[0] == u16_le(h.unk)[0] && s[1] == u16_le(h.unk)[1]);
    assert(s[2] == u16_le(h.opcode)[0] && s[3] == u16_le(h.opcode)[1]);
    assert(s[4] == u16_le(h.unk1)[0] && s[5] == u16_le(h.unk1)[1]);
    assert(s[6] == u16_le(h.server_id)[0] && s[7] == u16_le(h.server_id)[1]);
    let t = u32_le(h.timestamp);
    let u = u32_le(h.unk2);
    assert(s[8] == t[0] && s[9] == t[1] && s[10] == t[2] && s[11] == t[3]);
    assert(s[12] == u[0] && s[13] == u[1] && s[14] == u[2] && s[15] == u[3]);
}

/// One packet of a frame: its header, its IPC header if it is an IPC
/// packet, and its payload.
#[derive(Clone, Debug, PartialEq, Eq)]
pub struct Packet {
    pub header: PacketHeader,
    pub ipc_header: Option<PacketIPCHeader>,
    pub data: Vec<u8>,
}

/// A packet as a mathematical value.
pub struct PacketView {
    pub header: PacketHeader,
    pub ipc_header: Option<PacketIPCHeader>,
    pub data: Seq<u8>,
}

impl View for Packet {
    type V = PacketView;

    open spec fn view(&self) -> PacketView {
        PacketView { header: self.header, ipc_header: self.ipc_header, data: self.data@ }
    }
}

impl PacketView {
    /// The IPC header is there exactly for IPC packets, and the declared
    /// size is the headers' overhead plus the payload.
    pub open spec fn wf(self) -> bool {
        &&& self.ipc_header is Some <==> self.header.packet_type == PacketType::Ipc
        &&& self.header.size == self.header.packet_type.overhead() + self.data.len()
    }

    /// What the bytes from `at` on decode to: the header, then the IPC header
    /// where the tag asks for one, then as many payload bytes as the declared
    /// size leaves after the headers.
    pub open spec fn decode(s: Seq<u8>, at: int) -> Result<PacketView, FrameError> {
        match PacketHeader::decode(s, at) {
            Err(e) => Err(e),
            Ok(header) => {
                let ipc = PacketIPCHeader::decode(s, at + 16);
                let overhead = header.packet_type.overhead();
                if header.packet_type == PacketType::Ipc && ipc is Err {
                    Err(ipc->Err_0)
                } else if header.size < overhead {
                    Err(
                        FrameError::SizeBelowOverhead {
                            offset: at as usize,
                            size: header.size,
                            overhead,
                        },
                    )
                } else if at + header.size > s.len() {
                    Err(FrameError::Truncated { offset: (at + overhead) as usize })
                } else {
                    Ok(
                        PacketView {
                            header,
                            ipc_header: if header.packet_type == PacketType::Ipc {
                                Some(ipc->Ok_0)
                            } else {
                                None
                            },
                            data: s.subrange(at + overhead, at + header.size),
                        },
                    )
                }
            },
        }
    }
}

/// Every packet that decodes has a payload whose length is its declared
/// size less 32 where it has an IPC header, and less 16 where it has none;
/// that length is never negative.
pub proof fn lemma_payload_length(s: Seq<u8>, at: int)
    requires
        0 <= at,
        PacketView::decode(s, at) is Ok,
    ensures
        PacketView::decode(s, at)->Ok_0.wf(),
        PacketView::decode(s, at)->Ok_0.ipc_header is Some ==> PacketView::decode(
            s,
            at,
        )->Ok_0.data.len() == PacketView::decode(s, at)->Ok_0.header.size - 32,
        PacketView::decode(s, at)->Ok_0.ipc_header is None ==> PacketView::decode(
            s,
            at,
        )->Ok_0.data.len() == PacketView::decode(s, at)->Ok_0.header.size - 16,
{
}

impl Packet {
    /// See [`PacketView::wf`].
    pub open spec fn wf(&self) -> bool {
        self@.wf()
    }

    /// Decodes the packet that starts at `at`. A declared size below the
    /// headers' overhead is an error, never a wrapped length; the packet's
    /// payload length is the declared size less that overhead.
    pub fn parse(data: &[u8], at: usize) -> (r: Result<Packet, FrameError>)
        ensures
            match r {
                Ok(p) => PacketView::decode(data@, at as int) == Ok::<PacketView, FrameError>(p@),
                Err(e) => PacketView::decode(data@, at as int) == Err::<PacketView, FrameError>(e),
            },
            r matches Ok(p) ==> p.wf() && p.data@.len() == p.header.payload_len(),
    {
        let header = match PacketHeader::parse(data, at) {
            Ok(header) => header,
            Err(e) => { return Err(e); },
        };
        let len = data.len();
        assert(at + 16 <= len);
        let overhead = header.packet_type.header_overhead();
        let ipc_header = match header.packet_type {
            PacketType::Ipc => match PacketIPCHeader::parse(data, at + 16) {
                Ok(ipc) => Some(ipc),
                Err(e) => { return Err(e); },
            },
            _ => None,
        };
        if header.size < overhead {
            return Err(FrameError::SizeBelowOverhead { offset: at, size: header.size, overhead });
        }
        assert(at + overhead <= len);
        let start = at + overhead as usize;
        let payload_len = (header.size - overhead) as usize;
        if payload_len > len - start {
            return Err(FrameError::Truncated { offset: start });
        }
        let payload = slice_to_vec(slice_subrange(data, start, start + payload_len));
        Ok(Packet { header, ipc_header, data: payload })
    }

    /// Whether the declared size and the IPC header agree with the type and
    /// the payload.
    pub fn is_well_formed(&self) -> (ok: bool)
        ensures
            ok == self.wf(),
    {
        let overhead = self.header.packet_type.header_overhead();
        let ipc_expected = match self.header.packet_type {
            PacketType::Ipc => true,
            _ => false,
        };
        self.ipc_header.is_some() == ipc_expected && self.header.size >= overhead && (
        self.header.size - overhead) as usize == self.data.len()
    }
}

} // verus!
