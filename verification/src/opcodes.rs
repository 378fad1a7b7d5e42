//! The table of known IPC opcodes, and the classification of a packet's
//! opcode against one of its lists.

use vstd::prelude::*;
use crate::record::{Direction, Protocol};

verus! {

/// One known opcode: its name, its value and the payload size that packets
/// with it are expected to have. `dirty` marks an entry whose opcode has
/// been replaced already.
#[derive(Clone, Debug, PartialEq, Eq)]
pub struct KnownOpCode {
    pub name: String,
    pub opcode: i32,
    pub size: u32,
    pub dirty: bool,
}

/// The six lists of known opcodes, one for each pair of a protocol and the
/// side that sends: `server_*` lists hold what the server sends, `client_*`
/// lists what the client sends.
#[derive(Clone, Debug, PartialEq, Eq)]
pub struct KnownOpCodes {
    pub server_zone_ipc_type: Vec<KnownOpCode>,
    pub client_zone_ipc_type: Vec<KnownOpCode>,
    pub server_lobby_ipc_type: Vec<KnownOpCode>,
    pub client_lobby_ipc_type: Vec<KnownOpCode>,
    pub server_chat_ipc_type: Vec<KnownOpCode>,
    pub client_chat_ipc_type: Vec<KnownOpCode>,
}

impl KnownOpCodes {
    /// The list that applies to frames of `protocol` going in `direction`,
    /// if the pair has one. Received frames come from the server, sent
    /// frames from the client.
    pub open spec fn list_for(self, protocol: Protocol, direction: Direction) -> Option<
        Seq<KnownOpCode>,
    > {
        match (direction, protocol) {
            (Direction::Rx, Protocol::Zone) => Some(self.server_zone_ipc_type@),
            (Direction::Rx, Protocol::Chat) => Some(self.server_chat_ipc_type@),
            (Direction::Rx, Protocol::Lobby) => Some(self.server_lobby_ipc_type@),
            (Direction::Tx, Protocol::Zone) => Some(self.client_zone_ipc_type@),
            (Direction::Tx, Protocol::Chat) => Some(self.client_chat_ipc_type@),
            (Direction::Tx, Protocol::Lobby) => Some(self.client_lobby_ipc_type@),
            _ => None,
        }
    }

    /// A table with six empty lists: what an absent table file stands for.
    pub fn new() -> (table: KnownOpCodes)
        ensures
            table.server_zone_ipc_type@.len() == 0,
            table.client_zone_ipc_type@.len() == 0,
            table.server_lobby_ipc_type@.len() == 0,
            table.client_lobby_ipc_type@.len() == 0,
            table.server_chat_ipc_type@.len() == 0,
            table.client_chat_ipc_type@.len() == 0,
    {
        KnownOpCodes {
            server_zone_ipc_type: Vec::new(),
            client_zone_ipc_type: Vec::new(),
            server_lobby_ipc_type: Vec::new(),
            client_lobby_ipc_type: Vec::new(),
            server_chat_ipc_type: Vec::new(),
            client_chat_ipc_type: Vec::new(),
        }
    }

    /// Selects the list for a protocol and a direction.
    pub fn select(&self, protocol: Protocol, direction: Direction) -> (r: Option<
        &Vec<KnownOpCode>,
    >)
        ensures
            match r {
                Some(list) => self.list_for(protocol, direction) == Some(list@),
                None => self.list_for(protocol, direction) is None,
            },
    {
        match direction {
            Direction::Unset => None,
            Direction::Rx => match protocol {
                Protocol::Unset => None,
                Protocol::Zone => Some(&self.server_zone_ipc_type),
                Protocol::Chat => Some(&self.server_chat_ipc_type),
                Protocol::Lobby => Some(&self.server_lobby_ipc_type),
            },
            Direction::Tx => match protocol {
                Protocol::Unset => None,
                Protocol::Zone => Some(&self.client_zone_ipc_type),
                Protocol::Chat => Some(&self.client_chat_ipc_type),
                Protocol::Lobby => Some(&self.client_lobby_ipc_type),
            },
        }
    }
}

/// Entry `e` carries `old_opcode` and has not been updated yet.
pub open spec fn is_updatable(e: KnownOpCode, old_opcode: i32) -> bool {
    e.opcode == old_opcode && !e.dirty
}

/// Entry `e` with its opcode replaced by `new_opcode` and marked as updated.
pub open spec fn updated_entry(e: KnownOpCode, new_opcode: i32) -> KnownOpCode {
    KnownOpCode { name: e.name, opcode: new_opcode, size: e.size, dirty: true }
}

/// How entry `e` stands after one replacement of `old_opcode` by
/// `new_opcode`: updated where it carried the old opcode and had not been
/// updated before, else as it was.
pub open spec fn entry_after(e: KnownOpCode, old_opcode: i32, new_opcode: i32) -> KnownOpCode {
    if is_updatable(e, old_opcode) {
        updated_entry(e, new_opcode)
    } else {
        e
    }
}

/// How a list stands after one replacement of `old_opcode` by `new_opcode`:
/// every entry that carries `old_opcode` and was not updated before has the
/// new opcode and is marked, and every other entry is as it was.
pub open spec fn updated_list(before: Seq<KnownOpCode>, old_opcode: i32, new_opcode: i32) -> Seq<
    KnownOpCode,
> {
    Seq::new(before.len(), |i: int| entry_after(before[i], old_opcode, new_opcode))
}

/// An entry is updated at most once: after a replacement the entries that
/// it updated are marked, and no later replacement changes a marked entry,
/// not even one of the opcode that the first gave it.
pub proof fn lemma_updated_at_most_once(
    before: Seq<KnownOpCode>,
    first_old: i32,
    first_new: i32,
    second_old: i32,
    second_new: i32,
    i: int,
)
    requires
        0 <= i < before.len(),
        is_updatable(before[i], first_old) || before[i].dirty,
    ensures
        updated_list(updated_list(before, first_old, first_new), second_old, second_new)[i]
            == updated_list(before, first_old, first_new)[i],
        updated_list(before, first_old, first_new)[i].dirty,
{
}

/// Replaces `old_opcode` by `new_opcode` in every entry of `opcode_list`
/// that carries it and has not been updated before, and marks each of those
/// entries as updated, so that no entry is updated twice.
pub fn update_opcode(opcode_list: &mut [KnownOpCode], old_opcode: i32, new_opcode: i32)
    ensures
        final(opcode_list)@ == updated_list(old(opcode_list)@, old_opcode, new_opcode),
        final(opcode_list)@.len() == old(opcode_list)@.len(),
{
    let ghost before = opcode_list@;
    let mut i: usize = 0;
    while i < opcode_list.len()
        invariant
            before == old(opcode_list)@,
            opcode_list@.len() == before.len(),
            i <= before.len(),
            forall|j: int|
                0 <= j < i ==> opcode_list@[j] == entry_after(
                    #[trigger] before[j],
                    old_opcode,
                    new_opcode,
                ),
            forall|j: int| i <= j < before.len() ==> opcode_list@[j] == #[trigger] before[j],
        decreases before.len() - i,
    {
        if opcode_list[i].opcode == old_opcode && !opcode_list[i].dirty {
            opcode_list[i].opcode = new_opcode;
            opcode_list[i].dirty = true;
        }
        i = i + 1;
    }
    assert(opcode_list@ =~= updated_list(before, old_opcode, new_opcode));
}

impl KnownOpCodes {
    /// Replaces `old_opcode` by `new_opcode` in the two zone lists, in every
    /// entry that carries it and has not been updated before. The other
    /// lists stay as they are.
    pub fn update_zone_opcode(&mut self, old_opcode: i32, new_opcode: i32)
        ensures
            final(self).server_zone_ipc_type@ == updated_list(
                old(self).server_zone_ipc_type@,
                old_opcode,
                new_opcode,
            ),
            final(self).client_zone_ipc_type@ == updated_list(
                old(self).client_zone_ipc_type@,
                old_opcode,
                new_opcode,
            ),
            final(self).server_lobby_ipc_type == old(self).server_lobby_ipc_type,
            final(self).client_lobby_ipc_type == old(self).client_lobby_ipc_type,
            final(self).server_chat_ipc_type == old(self).server_chat_ipc_type,
            final(self).client_chat_ipc_type == old(self).client_chat_ipc_type,
    {
        update_opcode(self.server_zone_ipc_type.as_mut_slice(), old_opcode, new_opcode);
        update_opcode(self.client_zone_ipc_type.as_mut_slice(), old_opcode, new_opcode);
    }
}

impl Default for KnownOpCodes {
    /// A table with six empty lists.
    fn default() -> (table: KnownOpCodes)
        ensures
            table.server_zone_ipc_type@.len() == 0,
            table.client_zone_ipc_type@.len() == 0,
            table.server_lobby_ipc_type@.len() == 0,
            table.client_lobby_ipc_type@.len() == 0,
            table.server_chat_ipc_type@.len() == 0,
            table.client_chat_ipc_type@.len() == 0,
    {
        KnownOpCodes::new()
    }
}

/// What the table says of an IPC packet's opcode. `entry` is a position in
/// the list that was searched.
#[derive(Clone, Copy, Debug, PartialEq, Eq, Structural)]
pub enum Classification {
    /// Exactly one entry carries the opcode: its name is the packet's name.
    ExactMatch { entry: usize },
    /// No entry, or more than one, carries the opcode; `entry` is the first
    /// whose declared size equals the payload's. A hint, not a name.
    SizeHintOnly { entry: usize },
    /// Nothing in the list speaks for the packet.
    Unknown,
}

/// Entry `i` of `list` carries `opcode`.
pub open spec fn has_opcode(list: Seq<KnownOpCode>, opcode: u16, i: int) -> bool {
    0 <= i < list.len() && list[i].opcode == opcode
}

/// Entry `i` of `list` carries `opcode`, and no other entry does.
pub open spec fn is_sole_match(list: Seq<KnownOpCode>, opcode: u16, i: int) -> bool {
    &&& has_opcode(list, opcode, i)
    &&& forall|j: int| has_opcode(list, opcode, j) ==> j == i
}

/// Entry `i` of `list` is the first whose declared size is `size`.
pub open spec fn is_first_of_size(list: Seq<KnownOpCode>, size: u32, i: int) -> bool {
    &&& 0 <= i < list.len()
    &&& list[i].size == size
    &&& forall|j: int| 0 <= j < i ==> (#[trigger] list[j]).size != size
}

/// The classification of `opcode` with a payload of `payload_len` bytes
/// against `list`: the sole entry with that opcode where there is one, else
/// the first entry of that size, else nothing.
pub open spec fn classification(list: Seq<KnownOpCode>, opcode: u16, payload_len: u32) -> Classification {
    if exists|i: int| is_sole_match(list, opcode, i) {
        Classification::ExactMatch {
            entry: (choose|i: int| is_sole_match(list, opcode, i)) as usize,
        }
    } else if exists|i: int| is_first_of_size(list, payload_len, i) {
        Classification::SizeHintOnly {
            entry: (choose|i: int| is_first_of_size(list, payload_len, i)) as usize,
        }
    } else {
        Classification::Unknown
    }
}

/// Classifies an IPC opcode against one list of the table. An opcode that
/// exactly one entry carries is an exact match, whatever the sizes of the
/// other entries; an empty list classifies nothing.
pub fn classify(list: &[KnownOpCode], opcode: u16, payload_len: u32) -> (c: Classification)
    ensures
        c == classification(list@, opcode, payload_len),
        forall|i: int|
            is_sole_match(list@, opcode, i) ==> c == (Classification::ExactMatch {
                entry: i as usize,
            }),
        c matches Classification::ExactMatch { entry } ==> is_sole_match(list@, opcode, entry as int),
        c matches Classification::SizeHintOnly { entry } ==> is_first_of_size(
            list@,
            payload_len,
            entry as int,
        ),
        list@.len() == 0 ==> c == Classification::Unknown,
{
    let wanted: i32 = opcode as i32;
    let mut first: Option<usize> = None;
    let mut second: bool = false;
    let ghost mut other: int = 0;
    let mut i: usize = 0;
    while i < list.len()
        invariant
            i <= list@.len(),
            wanted == opcode,
            first is None ==> !second && forall|j: int| 0 <= j < i ==> !has_opcode(list@, opcode, j),
            first matches Some(f) ==> f < i && has_opcode(list@, opcode, f as int),
            first is Some && !second ==> forall|j: int|
                0 <= j < i && j != first->Some_0 ==> !has_opcode(list@, opcode, j),
            second ==> first is Some && other != first->Some_0 && has_opcode(list@, opcode, other),
        decreases list@.len() - i,
    {
        if list[i].opcode == wanted {
            match first {
                None => {
                    first = Some(i);
                },
                Some(_) => {
                    second = true;
                    proof {
                        other = i as int;
                    }
                },
            }
        }
        i = i + 1;
    }
    if let Some(f) = first {
        if !second {
            assert(is_sole_match(list@, opcode, f as int));
            return Classification::ExactMatch { entry: f };
        }
    }
    assert forall|k: int| !is_sole_match(list@, opcode, k) by {
        if is_sole_match(list@, opcode, k) {
            if let Some(f) = first {
                assert(has_opcode(list@, opcode, f as int));
                assert(has_opcode(list@, opcode, other));
            }
        }
    }
    let mut k: usize = 0;
    while k < list.len()
        invariant
            k <= list@.len(),
            forall|j: int| !is_sole_match(list@, opcode, j),
            forall|j: int| 0 <= j < k ==> (#[trigger] list@[j]).size != payload_len,
        decreases list@.len() - k,
    {
        if list[k].size == payload_len {
            proof {
                assert(is_first_of_size(list@, payload_len, k as int));
                let chosen = choose|i: int| is_first_of_size(list@, payload_len, i);
                assert(chosen == k) by {
                    if chosen < k {
                        assert(list@[chosen].size != payload_len);
                    }
                    if chosen > k {
                        assert(list@[k as int].size != payload_len);
                    }
                }
            }
            return Classification::SizeHintOnly { entry: k };
        }
        k = k + 1;
    }
    assert forall|i: int| !is_first_of_size(list@, payload_len, i) by {
        if 0 <= i < list@.len() {
            assert(list@[i].size != payload_len);
        }
    }
    Classification::Unknown
}

} // verus!
