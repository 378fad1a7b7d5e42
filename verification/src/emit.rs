//! What is to be written for each packet of a capture: the name of its
//! directory and the contents of its files.

use vstd::prelude::*;
use vstd::slice::slice_to_vec;
use vstd::string::StringExecFns;
use crate::bytes::{push_u32, u32_le};
use crate::error::FrameError;
use crate::frame::{Frame, FrameView};
use crate::opcodes::{classification, classify, is_first_of_size, is_sole_match};
use crate::opcodes::{Classification, KnownOpCode, KnownOpCodes};
use crate::packet::{Packet, PacketType, PacketView};
use crate::record::{CaptureFrameRecord, Direction, Protocol};
use crate::text::{decimal, hex_label, push_decimal, push_hex_label};

verus! {

/// The file that holds a packet's payload.
pub const DATA_FILE: &'static str = "data.bin";

/// The file that holds a packet's IPC header, where it has one.
pub const IPC_HEADER_FILE: &'static str = "ipc_header.bin";

/// The file that holds the four bytes of a packet's source entity.
pub const SOURCE_ACTOR_FILE: &'static str = "source_actor.bin";

/// The file that holds the four bytes of a packet's destination entity.
pub const TARGET_ACTOR_FILE: &'static str = "target_actor.bin";

/// What a classification wants the operator to be told. It never changes
/// what is written.
#[derive(Clone, Copy, Debug, PartialEq, Eq, Structural)]
pub enum Diagnostic {
    /// Nothing to tell.
    Quiet,
    /// The entry that names the packet declares another payload size than
    /// the packet has.
    SizeMismatch { declared: u32, actual: u32 },
    /// The opcode has no name, and the entry at `entry` has the size of the
    /// packet's payload: the packet may be one of those.
    PossibleMatch { opcode: u16, entry: usize },
}

/// All that is written for one packet.
#[derive(Clone, Debug, PartialEq, Eq)]
pub struct PacketArtifacts {
    /// The running index of the packet in its capture.
    pub index: usize,
    /// The protocol of the packet's frame, whose directory holds the
    /// packet's directory.
    pub protocol: Protocol,
    /// The direction of the packet's frame.
    pub direction: Direction,
    /// The name of the packet's directory.
    pub directory: String,
    /// The payload.
    pub data: Vec<u8>,
    /// The IPC header in its wire layout, for an IPC packet.
    pub ipc_header: Option<Vec<u8>>,
    /// The source entity, little-endian.
    pub source_actor: Vec<u8>,
    /// The destination entity, little-endian.
    pub target_actor: Vec<u8>,
    /// What to tell the operator.
    pub diagnostic: Diagnostic,
}

/// The artifacts of a packet as a mathematical value.
pub struct PacketArtifactsView {
    pub index: nat,
    pub protocol: Protocol,
    pub direction: Direction,
    pub directory: Seq<char>,
    pub data: Seq<u8>,
    pub ipc_header: Option<Seq<u8>>,
    pub source_actor: Seq<u8>,
    pub target_actor: Seq<u8>,
    pub diagnostic: Diagnostic,
}

impl View for PacketArtifacts {
    type V = PacketArtifactsView;

    open spec fn view(&self) -> PacketArtifactsView {
        PacketArtifactsView {
            index: self.index as nat,
            protocol: self.protocol,
            direction: self.direction,
            directory: self.directory@,
            data: self.data@,
            ipc_header: match self.ipc_header {
                Some(bytes) => Some(bytes@),
                None => None,
            },
            source_actor: self.source_actor@,
            target_actor: self.target_actor@,
            diagnostic: self.diagnostic,
        }
    }
}

/// The length of a well-formed packet's payload as the 32-bit number that
/// the opcode table's sizes are compared with.
pub open spec fn payload_size(p: PacketView) -> u32 {
    p.data.len() as u32
}

/// The name that a packet's directory carries behind its type: for an IPC
/// packet the name of the sole entry with its opcode, else the opcode in
/// hexadecimal; for any other packet none.
pub open spec fn opcode_name(list: Seq<KnownOpCode>, p: PacketView) -> Option<Seq<char>> {
    match p.ipc_header {
        None => None,
        Some(ipc) => Some(
            match classification(list, ipc.opcode, payload_size(p)) {
                Classification::ExactMatch { entry } => list[entry as int].name@,
                _ => hex_label(ipc.opcode as nat),
            },
        ),
    }
}

/// What is told of a packet.
pub open spec fn diagnostic_of(list: Seq<KnownOpCode>, p: PacketView) -> Diagnostic {
    match p.ipc_header {
        None => Diagnostic::Quiet,
        Some(ipc) => match classification(list, ipc.opcode, payload_size(p)) {
            Classification::ExactMatch { entry } => if list[entry as int].size == payload_size(p) {
                Diagnostic::Quiet
            } else {
                Diagnostic::SizeMismatch {
                    declared: list[entry as int].size,
                    actual: payload_size(p),
                }
            },
            Classification::SizeHintOnly { entry } => Diagnostic::PossibleMatch {
                opcode: ipc.opcode,
                entry,
            },
            Classification::Unknown => Diagnostic::Quiet,
        },
    }
}

/// An opcode that exactly one entry of the list carries is named by that
/// entry, whatever sizes the other entries declare.
pub proof fn lemma_sole_match_names(list: Seq<KnownOpCode>, p: PacketView, i: int)
    requires
        list.len() <= usize::MAX,
        p.ipc_header is Some,
        is_sole_match(list, p.ipc_header->Some_0.opcode, i),
    ensures
        classification(list, p.ipc_header->Some_0.opcode, payload_size(p)) == (
        Classification::ExactMatch { entry: i as usize }),
        opcode_name(list, p) == Some(list[i].name@),
{
    let opcode = p.ipc_header->Some_0.opcode;
    let chosen = choose|j: int| is_sole_match(list, opcode, j);
    assert(chosen == i);
}

/// With no opcodes known, every IPC packet is labelled with its opcode in
/// hexadecimal, and nothing is told of it.
pub proof fn lemma_empty_list_labels_hex(p: PacketView)
    requires
        p.ipc_header is Some,
    ensures
        classification(Seq::empty(), p.ipc_header->Some_0.opcode, payload_size(p))
            == Classification::Unknown,
        opcode_name(Seq::empty(), p) == Some(hex_label(p.ipc_header->Some_0.opcode as nat)),
        diagnostic_of(Seq::empty(), p) == Diagnostic::Quiet,
{
    let list = Seq::<KnownOpCode>::empty();
    let opcode = p.ipc_header->Some_0.opcode;
    assert forall|j: int| !is_sole_match(list, opcode, j) by {}
    assert forall|j: int| !is_first_of_size(list, payload_size(p), j) by {}
}

/// Whatever the list holds, an IPC packet's name is the name of an entry
/// that carries its opcode or the opcode in hexadecimal: classification
/// always gives a label.
pub proof fn lemma_opcode_name_total(list: Seq<KnownOpCode>, p: PacketView)
    requires
        list.len() <= usize::MAX,
        p.ipc_header is Some,
    ensures
        opcode_name(list, p) is Some,
        opcode_name(list, p) == Some(hex_label(p.ipc_header->Some_0.opcode as nat)) || exists|
            i: int,
        |
            is_sole_match(list, p.ipc_header->Some_0.opcode, i) && opcode_name(list, p) == Some(
                list[i].name@,
            ),
{
    let opcode = p.ipc_header->Some_0.opcode;
    if exists|j: int| is_sole_match(list, opcode, j) {
        let chosen = choose|j: int| is_sole_match(list, opcode, j);
        lemma_sole_match_names(list, p, chosen);
    }
}

/// The name of a packet's directory: the running index, the type's label,
/// the opcode's name where there is one, the side the frame went to, and
/// the packet's position in its frame.
pub open spec fn directory_name(
    index: nat,
    kind: PacketType,
    name: Option<Seq<char>>,
    direction: Direction,
    position: nat,
) -> Seq<char> {
    let head = decimal(index) + "-"@ + kind.label();
    let named = match name {
        Some(name) => head + "-"@ + name,
        None => head,
    };
    named + " (to "@ + direction.target() + ") ("@ + decimal(position) + ")"@
}

/// All that is written for the packet `p`, which is the packet at
/// `position` in a frame of `protocol` that went in `direction` and has the
/// running index `index`, with `list` as the opcodes known for the frame.
pub open spec fn artifacts_of(
    list: Seq<KnownOpCode>,
    protocol: Protocol,
    direction: Direction,
    index: nat,
    position: nat,
    p: PacketView,
) -> PacketArtifactsView {
    PacketArtifactsView {
        index,
        protocol,
        direction,
        directory: directory_name(
            index,
            p.header.packet_type,
            opcode_name(list, p),
            direction,
            position,
        ),
        data: p.data,
        ipc_header: match p.ipc_header {
            Some(ipc) => Some(ipc.encode()),
            None => None,
        },
        source_actor: u32_le(p.header.src_entity),
        target_actor: u32_le(p.header.dst_entity),
        diagnostic: diagnostic_of(list, p),
    }
}

/// Works out what is written for one packet. Nothing here can fail: an
/// opcode that the list does not name is written in hexadecimal.
pub fn packet_artifacts(
    packet: &Packet,
    index: usize,
    position: usize,
    protocol: Protocol,
    direction: Direction,
    opcode_list: &[KnownOpCode],
) -> (out: PacketArtifacts)
    requires
        packet.wf(),
    ensures
        out@ == artifacts_of(
            opcode_list@,
            protocol,
            direction,
            index as nat,
            position as nat,
            packet@,
        ),
{
    let mut directory = String::new();
    let mut diagnostic = Diagnostic::Quiet;
    push_decimal(&mut directory, index as u64);
    directory.append("-");
    directory.append(packet.header.packet_type.to_string());
    let ghost head = directory@;
    let ipc_bytes = match &packet.ipc_header {
        None => None,
        Some(ipc) => {
            let actual: u32 = packet.header.size - 32;
            directory.append("-");
            match classify(opcode_list, ipc.opcode, actual) {
                Classification::ExactMatch { entry } => {
                    directory.append(opcode_list[entry].name.as_str());
                    let declared = opcode_list[entry].size;
                    if declared != actual {
                        diagnostic = Diagnostic::SizeMismatch { declared, actual };
                    }
                },
                Classification::SizeHintOnly { entry } => {
                    push_hex_label(&mut directory, ipc.opcode);
                    diagnostic = Diagnostic::PossibleMatch { opcode: ipc.opcode, entry };
                },
                Classification::Unknown => {
                    push_hex_label(&mut directory, ipc.opcode);
                },
            }
            assert(directory@ =~= head + "-"@ + opcode_name(opcode_list@, packet@)->Some_0);
            Some(ipc.to_bytes())
        },
    };
    directory.append(" (to ");
    directory.append(direction.target_name());
    directory.append(") (");
    push_decimal(&mut directory, position as u64);
    directory.append(")");
    let mut source_actor: Vec<u8> = Vec::new();
    push_u32(&mut source_actor, packet.header.src_entity);
    let mut target_actor: Vec<u8> = Vec::new();
    push_u32(&mut target_actor, packet.header.dst_entity);
    let out = PacketArtifacts {
        index,
        protocol,
        direction,
        directory,
        data: slice_to_vec(packet.data.as_slice()),
        ipc_header: ipc_bytes,
        source_actor,
        target_actor,
        diagnostic,
    };
    proof {
        let want = artifacts_of(
            opcode_list@,
            protocol,
            direction,
            index as nat,
            position as nat,
            packet@,
        );
        assert(head =~= decimal(index as nat) + "-"@ + packet.header.packet_type.label());
        assert(out@.directory =~= want.directory);
        assert(out@.source_actor =~= want.source_actor);
        assert(out@.target_actor =~= want.target_actor);
    }
    out
}

/// The views of a run of artifacts.
pub open spec fn views(out: Seq<PacketArtifacts>) -> Seq<PacketArtifactsView> {
    out.map_values(|a: PacketArtifacts| a@)
}

/// What is written for the packets of `frame`, in wire order: the packet at
/// position `k` has the running index `first_index + k`.
pub open spec fn frame_output(
    list: Seq<KnownOpCode>,
    protocol: Protocol,
    direction: Direction,
    first_index: nat,
    frame: FrameView,
) -> Seq<PacketArtifactsView> {
    Seq::new(
        frame.packets.len(),
        |k: int|
            artifacts_of(
                list,
                protocol,
                direction,
                first_index + k as nat,
                k as nat,
                frame.packets[k],
            ),
    )
}

/// What is written for the frame that `s` decodes to, or why `s` is none.
pub open spec fn expanded(
    list: Seq<KnownOpCode>,
    protocol: Protocol,
    direction: Direction,
    first_index: nat,
    s: Seq<u8>,
) -> Result<Seq<PacketArtifactsView>, FrameError> {
    match FrameView::decode(s) {
        Err(e) => Err(e),
        Ok(frame) => Ok(frame_output(list, protocol, direction, first_index, frame)),
    }
}

/// `after` is `before` with `added` behind it: what was there is untouched.
pub open spec fn is_extended(
    before: Seq<PacketArtifacts>,
    after: Seq<PacketArtifacts>,
    added: Seq<PacketArtifactsView>,
) -> bool {
    &&& after.len() == before.len() + added.len()
    &&& forall|i: int| 0 <= i < before.len() ==> #[trigger] after[i] == before[i]
    &&& forall|k: int| 0 <= k < added.len() ==> (#[trigger] after[before.len() + k])@ == added[k]
}

/// As many packets are written for a frame as its header counts, one for
/// each position and in the order of the positions: the packet at position
/// `k` has the running index `first_index + k`, and its directory's name
/// carries that index in front and `k` at its end.
pub proof fn lemma_expanded_positions(
    list: Seq<KnownOpCode>,
    protocol: Protocol,
    direction: Direction,
    first_index: nat,
    s: Seq<u8>,
)
    requires
        expanded(list, protocol, direction, first_index, s) is Ok,
    ensures
        FrameView::decode(s) is Ok,
        expanded(list, protocol, direction, first_index, s)->Ok_0.len() == FrameView::decode(
            s,
        )->Ok_0.header.count,
        forall|k: int|
            0 <= k < FrameView::decode(s)->Ok_0.header.count ==> {
                let p = FrameView::decode(s)->Ok_0.packets[k];
                let written = #[trigger] expanded(list, protocol, direction, first_index, s)->Ok_0[k];
                &&& written.index == first_index + k
                &&& written.data == p.data
                &&& written.directory == directory_name(
                    first_index + k as nat,
                    p.header.packet_type,
                    opcode_name(list, p),
                    direction,
                    k as nat,
                )
            },
{
    crate::frame::lemma_decode_wf(s);
}

/// With an opcode table of six empty lists every record is written all the
/// same: each IPC packet of its frame has its opcode in hexadecimal as its
/// name, and nothing is told of it.
pub proof fn lemma_empty_table_labels_hex(
    known: KnownOpCodes,
    record: CaptureFrameRecord,
    first_index: nat,
)
    requires
        known.server_zone_ipc_type@.len() == 0,
        known.client_zone_ipc_type@.len() == 0,
        known.server_lobby_ipc_type@.len() == 0,
        known.client_lobby_ipc_type@.len() == 0,
        known.server_chat_ipc_type@.len() == 0,
        known.client_chat_ipc_type@.len() == 0,
    ensures
        record_output(known, record, first_index) is Ok <==> FrameView::decode(record.frame@) is Ok,
        record_output(known, record, first_index) is Ok ==> forall|k: int|
            0 <= k < FrameView::decode(record.frame@)->Ok_0.packets.len() && FrameView::decode(
                record.frame@,
            )->Ok_0.packets[k].ipc_header is Some ==> {
                let p = FrameView::decode(record.frame@)->Ok_0.packets[k];
                let written = #[trigger] record_output(known, record, first_index)->Ok_0[k];
                &&& written.diagnostic == Diagnostic::Quiet
                &&& written.directory == directory_name(
                    first_index + k as nat,
                    p.header.packet_type,
                    Some(hex_label(p.ipc_header->Some_0.opcode as nat)),
                    record.direction,
                    k as nat,
                )
            },
{
    let list = known_list(known, record.protocol, record.direction);
    assert(list =~= Seq::<KnownOpCode>::empty());
    if record_output(known, record, first_index) is Ok {
        let frame = FrameView::decode(record.frame@)->Ok_0;
        assert forall|k: int|
            0 <= k < frame.packets.len() && frame.packets[k].ipc_header is Some implies {
            let p = frame.packets[k];
            let written = #[trigger] record_output(known, record, first_index)->Ok_0[k];
            &&& written.diagnostic == Diagnostic::Quiet
            &&& written.directory == directory_name(
                first_index + k as nat,
                p.header.packet_type,
                Some(hex_label(p.ipc_header->Some_0.opcode as nat)),
                record.direction,
                k as nat,
            )
        } by {
            lemma_empty_list_labels_hex(frame.packets[k]);
        }
    }
}

/// Works out what is written for every packet of a decoded frame and puts
/// it behind what `out` holds of the capture so far. The running index of a
/// packet is the number of packets in front of it in `out`: it grows by one
/// with each packet and is never set back.
pub fn frame_artifacts(
    frame: &Frame,
    out: &mut Vec<PacketArtifacts>,
    protocol: Protocol,
    direction: Direction,
    opcode_list: &[KnownOpCode],
)
    requires
        frame.wf(),
    ensures
        is_extended(
            old(out)@,
            final(out)@,
            frame_output(opcode_list@, protocol, direction, old(out)@.len(), frame@),
        ),
        final(out)@.len() == old(out)@.len() + frame.header.count,
{
    let ghost before = out@;
    let mut position: usize = 0;
    while position < frame.packets.len()
        invariant
            frame.wf(),
            before == old(out)@,
            position <= frame.packets@.len(),
            out@.len() == before.len() + position,
            forall|i: int| 0 <= i < before.len() ==> #[trigger] out@[i] == before[i],
            forall|k: int|
                0 <= k < position ==> (#[trigger] out@[before.len() + k])@ == artifacts_of(
                    opcode_list@,
                    protocol,
                    direction,
                    before.len() + k as nat,
                    k as nat,
                    frame@.packets[k],
                ),
        decreases frame.packets@.len() - position,
    {
        let packet = &frame.packets[position];
        assert(packet@ == frame@.packets[position as int]);
        assert(frame@.packets[position as int].wf());
        let index = out.len();
        let artifacts = packet_artifacts(
            packet,
            index,
            position,
            protocol,
            direction,
            opcode_list,
        );
        out.push(artifacts);
        position = position + 1;
    }
}

/// Decodes the frame in `data` and puts what is written for each of its
/// packets behind what `out` holds. A frame that does not decode adds
/// nothing.
pub fn expand_frame(
    data: &[u8],
    out: &mut Vec<PacketArtifacts>,
    protocol: Protocol,
    direction: Direction,
    opcode_list: &[KnownOpCode],
) -> (r: Result<(), FrameError>)
    ensures
        match r {
            Ok(_) => {
                &&& expanded(opcode_list@, protocol, direction, old(out)@.len(), data@) is Ok
                &&& is_extended(
                    old(out)@,
                    final(out)@,
                    expanded(opcode_list@, protocol, direction, old(out)@.len(), data@)->Ok_0,
                )
                &&& final(out)@.len() == old(out)@.len() + FrameView::decode(
                    data@,
                )->Ok_0.header.count
            },
            Err(e) => {
                &&& FrameView::decode(data@) == Err::<FrameView, FrameError>(e)
                &&& final(out)@ == old(out)@
            },
        },
{
    match Frame::parse(data) {
        Err(e) => Err(e),
        Ok(frame) => {
            frame_artifacts(&frame, out, protocol, direction, opcode_list);
            Ok(())
        },
    }
}

/// The opcodes known for a protocol and a direction: the table's list for
/// the pair, or none at all where the pair has no list.
pub open spec fn known_list(known: KnownOpCodes, protocol: Protocol, direction: Direction) -> Seq<
    KnownOpCode,
> {
    match known.list_for(protocol, direction) {
        Some(list) => list,
        None => Seq::empty(),
    }
}

/// What is written for the packets of `record`, or why its frame does not
/// decode.
pub open spec fn record_output(
    known: KnownOpCodes,
    record: CaptureFrameRecord,
    first_index: nat,
) -> Result<Seq<PacketArtifactsView>, FrameError> {
    expanded(
        known_list(known, record.protocol, record.direction),
        record.protocol,
        record.direction,
        first_index,
        record.frame@,
    )
}

/// Decodes the frame of one record and puts what is written for it behind
/// what `out` holds, with the opcodes that the table knows for the record's
/// protocol and direction.
pub fn expand_record(
    record: &CaptureFrameRecord,
    out: &mut Vec<PacketArtifacts>,
    known: &KnownOpCodes,
) -> (r: Result<(), FrameError>)
    ensures
        match r {
            Ok(_) => {
                &&& record_output(*known, *record, old(out)@.len()) is Ok
                &&& is_extended(
                    old(out)@,
                    final(out)@,
                    record_output(*known, *record, old(out)@.len())->Ok_0,
                )
                &&& final(out)@.len() == old(out)@.len() + FrameView::decode(
                    record.frame@,
                )->Ok_0.header.count
            },
            Err(e) => {
                &&& FrameView::decode(record.frame@) == Err::<FrameView, FrameError>(e)
                &&& final(out)@ == old(out)@
            },
        },
{
    let none: Vec<KnownOpCode> = Vec::new();
    let opcode_list: &[KnownOpCode] = match known.select(record.protocol, record.direction) {
        Some(list) => list.as_slice(),
        None => none.as_slice(),
    };
    expand_frame(record.frame.as_slice(), out, record.protocol, record.direction, opcode_list)
}

/// A record whose frame does not decode: its position in the stream and
/// what is wrong with the frame.
#[derive(Clone, Copy, Debug, PartialEq, Eq, Structural)]
pub struct CaptureError {
    pub record: usize,
    pub error: FrameError,
}

/// What is written for the records from position `from` on, in stream
/// order, where the first packet of them gets the running index
/// `first_index`. One frame that does not decode fails the capture.
pub open spec fn capture_output(
    known: KnownOpCodes,
    records: Seq<CaptureFrameRecord>,
    from: int,
    first_index: nat,
) -> Result<Seq<PacketArtifactsView>, CaptureError>
    decreases records.len() - from,
{
    if from < 0 || from >= records.len() {
        Ok(Seq::empty())
    } else {
        match record_output(known, records[from], first_index) {
            Err(error) => Err(CaptureError { record: from as usize, error }),
            Ok(packets) => match capture_output(
                known,
                records,
                from + 1,
                first_index + packets.len(),
            ) {
                Err(e) => Err(e),
                Ok(rest) => Ok(packets + rest),
            },
        }
    }
}

/// The number of packets that the frames of the records from `from` on
/// count, as far as those frames decode.
pub open spec fn packets_counted(records: Seq<CaptureFrameRecord>, from: int) -> nat
    decreases records.len() - from,
{
    if from < 0 || from >= records.len() {
        0
    } else {
        match FrameView::decode(records[from].frame@) {
            Err(_) => packets_counted(records, from + 1),
            Ok(frame) => frame.header.count as nat + packets_counted(records, from + 1),
        }
    }
}

/// Across a capture the running index counts the packets in stream order:
/// the first packet written has the index `first_index`, and each packet
/// after it has the index of the one before plus one, from record to record
/// and inside each. As many packets are written as the frames count.
pub proof fn lemma_capture_indices(
    known: KnownOpCodes,
    records: Seq<CaptureFrameRecord>,
    from: int,
    first_index: nat,
)
    requires
        0 <= from,
        capture_output(known, records, from, first_index) is Ok,
    ensures
        forall|n: int|
            0 <= n < capture_output(known, records, from, first_index)->Ok_0.len() ==> (
            #[trigger] capture_output(known, records, from, first_index)->Ok_0[n]).index
                == first_index + n,
        capture_output(known, records, from, first_index)->Ok_0.len() == packets_counted(
            records,
            from,
        ),
    decreases records.len() - from,
{
    if from < records.len() {
        let packets = record_output(known, records[from], first_index)->Ok_0;
        lemma_capture_indices(known, records, from + 1, first_index + packets.len());
        crate::frame::lemma_decode_wf(records[from].frame@);
    }
}

/// Works out what is written for a whole capture: the packets of all
/// records in stream order, those of one frame in wire order, with one
/// running index over all of them that starts at zero and grows by one with
/// each packet. A frame that does not decode fails the capture, with the
/// position of its record.
pub fn expand_capture(records: &[CaptureFrameRecord], known: &KnownOpCodes) -> (r: Result<
    Vec<PacketArtifacts>,
    CaptureError,
>)
    ensures
        match r {
            Ok(out) => {
                &&& capture_output(*known, records@, 0, 0) == Ok::<
                    Seq<PacketArtifactsView>,
                    CaptureError,
                >(views(out@))
                &&& out@.len() == packets_counted(records@, 0)
                &&& forall|n: int| 0 <= n < out@.len() ==> (#[trigger] out@[n]).index == n
            },
            Err(e) => capture_output(*known, records@, 0, 0) == Err::<
                Seq<PacketArtifactsView>,
                CaptureError,
            >(e),
        },
{
    let mut out: Vec<PacketArtifacts> = Vec::new();
    let mut i: usize = 0;
    while i < records.len()
        invariant
            i <= records@.len(),
            capture_output(*known, records@, 0, 0) == match capture_output(
                *known,
                records@,
                i as int,
                out@.len(),
            ) {
                Ok(rest) => Ok::<Seq<PacketArtifactsView>, CaptureError>(views(out@) + rest),
                Err(e) => Err(e),
            },
        decreases records@.len() - i,
    {
        let ghost done = views(out@);
        match expand_record(&records[i], &mut out, known) {
            Err(error) => {
                return Err(CaptureError { record: i, error });
            },
            Ok(_) => {
                proof {
                    let added = record_output(*known, records@[i as int], done.len())->Ok_0;
                    assert(views(out@) =~= done + added);
                    match capture_output(*known, records@, i + 1, out@.len()) {
                        Ok(rest) => {
                            assert((done + added) + rest =~= done + (added + rest));
                        },
                        Err(_) => {},
                    }
                }
                i = i + 1;
            },
        }
    }
    proof {
        assert(views(out@) + Seq::<PacketArtifactsView>::empty() =~= views(out@));
        lemma_capture_indices(*known, records@, 0, 0);
        assert forall|n: int| 0 <= n < out@.len() implies (#[trigger] out@[n]).index == n by {
            assert(views(out@)[n] == out@[n]@);
        }
    }
    Ok(out)
}

} // verus!
