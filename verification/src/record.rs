//! Capture records: what the data stream of a capture is made of.

use vstd::prelude::*;
use vstd::slice::{slice_subrange, slice_to_vec};

verus! {

/// The logical channel that a captured frame belongs to.
#[derive(Clone, Copy, Debug, PartialEq, Eq, Structural)]
pub enum Protocol {
    Unset,
    Zone,
    Chat,
    Lobby,
}

/// Who sent a captured frame: `Rx` was received from the server, `Tx` was
/// sent to it.
#[derive(Clone, Copy, Debug, PartialEq, Eq, Structural)]
pub enum Direction {
    Unset,
    Rx,
    Tx,
}

impl Protocol {
    /// The name of the directory that collects the packets of this protocol.
    pub open spec fn dir_name(self) -> Seq<char> {
        match self {
            Protocol::Unset => "none"@,
            Protocol::Zone => "zone"@,
            Protocol::Chat => "chat"@,
            Protocol::Lobby => "lobby"@,
        }
    }

    /// The name of the directory that collects the packets of this protocol.
    pub fn directory(&self) -> (name: &'static str)
        ensures
            name@ == self.dir_name(),
    {
        match self {
            Protocol::Unset => "none",
            Protocol::Zone => "zone",
            Protocol::Chat => "chat",
            Protocol::Lobby => "lobby",
        }
    }
}

impl Direction {
    /// The side a frame went to, as artifact names say it: a received frame
    /// went to the client, a sent one to the server.
    pub open spec fn target(self) -> Seq<char> {
        match self {
            Direction::Unset => "none"@,
            Direction::Rx => "client"@,
            Direction::Tx => "server"@,
        }
    }

    /// The side a frame went to.
    pub fn target_name(&self) -> (name: &'static str)
        ensures
            name@ == self.target(),
    {
        match self {
            Direction::Unset => "none",
            Direction::Rx => "client",
            Direction::Tx => "server",
        }
    }
}

/// One record of the data stream: a frame's bytes with the protocol and the
/// direction it was captured on.
#[derive(Clone, Debug, PartialEq, Eq)]
pub struct CaptureFrameRecord {
    pub protocol: Protocol,
    pub direction: Direction,
    pub frame: Vec<u8>,
}

/// Why the data stream could not be cut into records. `offset` is where the
/// record starts in the stream.
#[derive(Clone, Copy, Debug, PartialEq, Eq, Structural)]
pub enum RecordError {
    /// No length prefix can be read at `offset`.
    BadLength { offset: usize },
    /// The record at `offset` declares more bytes than the stream has left.
    Truncated { offset: usize },
}

/// The base-128 number whose bytes start at `i` in `s`, low seven bits
/// first, with the count of bytes it takes. A byte below `0x80` ends the
/// number; it has at most ten bytes counted from the start of `s`, and the
/// tenth may only be 0 or 1, so that the number fits 64 bits.
pub open spec fn varint_from(s: Seq<u8>, i: nat) -> Option<(nat, nat)>
    decreases 10 - i,
{
    if i >= 10 || i >= s.len() {
        None
    } else if s[i as int] < 0x80 {
        if i == 9 && s[i as int] >= 2 {
            None
        } else {
            Some((s[i as int] as nat, 1))
        }
    } else {
        match varint_from(s, i + 1) {
            None => None,
            Some((high, used)) => Some(((s[i as int] - 0x80) as nat + 0x80 * high, used + 1)),
        }
    }
}

/// The length prefix at the front of `s`: its value and the count of bytes
/// it takes.
pub open spec fn varint(s: Seq<u8>) -> Option<(nat, nat)> {
    varint_from(s, 0)
}

/// Where the body of the record that starts at `at` begins and ends: behind
/// its length prefix, and as long as the prefix says.
pub open spec fn record_at(s: Seq<u8>, at: int) -> Result<(int, int), RecordError> {
    if at < 0 || at >= s.len() {
        Err(RecordError::BadLength { offset: at as usize })
    } else {
        match varint(s.subrange(at, s.len() as int)) {
            None => Err(RecordError::BadLength { offset: at as usize }),
            Some((len, used)) => if at + used + len > s.len() {
                Err(RecordError::Truncated { offset: at as usize })
            } else {
                Ok((at + used, at + used + len))
            },
        }
    }
}

/// The bodies of the records that fill `s` from `at` to its end, in stream
/// order. A stream that ends inside a record has no records at all.
pub open spec fn records_from(s: Seq<u8>, at: int) -> Result<Seq<Seq<u8>>, RecordError>
    decreases s.len() - at,
{
    if at < 0 || at >= s.len() {
        Ok(Seq::empty())
    } else {
        match record_at(s, at) {
            Err(e) => Err(e),
            Ok((start, end)) => match records_from(s, end) {
                Err(e) => Err(e),
                Ok(rest) => Ok(seq![s.subrange(start, end)] + rest),
            },
        }
    }
}

/// What a number that starts at byte `i` stays below: two at the tenth
/// byte, and 128 times as much for each byte before it.
pub open spec fn varint_limit(i: nat) -> nat
    decreases 10 - i,
{
    if i >= 9 {
        2
    } else {
        0x80 * varint_limit(i + 1)
    }
}

/// A number read from byte `i` on takes between one byte and what is left
/// of ten, all of them inside the input, and stays below its limit. Read
/// from the first byte it fits 64 bits.
pub proof fn lemma_varint_bounds(s: Seq<u8>, i: nat)
    requires
        varint_from(s, i) is Some,
    ensures
        1 <= varint_from(s, i)->Some_0.1,
        i + varint_from(s, i)->Some_0.1 <= 10,
        i + varint_from(s, i)->Some_0.1 <= s.len(),
        varint_from(s, i)->Some_0.0 < varint_limit(i),
        varint_limit(i) <= 0x1_0000_0000_0000_0000,
    decreases 10 - i,
{
    assert(varint_limit(9) == 2);
    assert(varint_limit(8) == 0x100);
    assert(varint_limit(7) == 0x8000);
    assert(varint_limit(6) == 0x40_0000);
    assert(varint_limit(5) == 0x2000_0000);
    assert(varint_limit(4) == 0x10_0000_0000);
    assert(varint_limit(3) == 0x800_0000_0000);
    assert(varint_limit(2) == 0x4_0000_0000_0000);
    assert(varint_limit(1) == 0x200_0000_0000_0000);
    assert(varint_limit(0) == 0x1_0000_0000_0000_0000);
    if s[i as int] >= 0x80 {
        lemma_varint_bounds(s, i + 1);
    }
}

/// Reads the base-128 number whose bytes start at `i` in `data`, with the
/// count of bytes it takes.
pub fn read_varint_from(data: &[u8], i: usize) -> (r: Option<(u64, usize)>)
    ensures
        match r {
            Some((value, used)) => varint_from(data@, i as nat) == Some(
                (value as nat, used as nat),
            ),
            None => varint_from(data@, i as nat) is None,
        },
    decreases 10 - i,
{
    if i >= 10 || i >= data.len() {
        None
    } else if data[i] < 0x80 {
        if i == 9 && data[i] >= 2 {
            None
        } else {
            Some((data[i] as u64, 1))
        }
    } else {
        match read_varint_from(data, i + 1) {
            None => None,
            Some((high, used)) => {
                proof {
                    lemma_varint_bounds(data@, (i + 1) as nat);
                    lemma_varint_bounds(data@, i as nat);
                }
                Some(((data[i] - 0x80) as u64 + 0x80 * high, used + 1))
            },
        }
    }
}

/// Reads the length prefix at the front of `data`: its value and the count
/// of bytes it takes, which is at least one and at most ten.
pub fn read_varint(data: &[u8]) -> (r: Option<(u64, usize)>)
    ensures
        match r {
            Some((value, used)) => varint(data@) == Some((value as nat, used as nat)) && 1 <= used
                <= 10 && used <= data@.len(),
            None => varint(data@) is None,
        },
{
    let r = read_varint_from(data, 0);
    proof {
        if r is Some {
            lemma_varint_bounds(data@, 0);
        }
    }
    r
}

/// Finds the record that starts at `at` in the stream `data`: on success
/// the body is `data[start..end]`, and the next record, if any, starts at
/// `end`, which lies behind `at`.
pub fn next_record(data: &[u8], at: usize) -> (r: Result<(usize, usize), RecordError>)
    ensures
        match r {
            Ok((start, end)) => record_at(data@, at as int) == Ok::<(int, int), RecordError>(
                (start as int, end as int),
            ) && at < start <= end <= data@.len(),
            Err(e) => record_at(data@, at as int) == Err::<(int, int), RecordError>(e),
        },
{
    let total = data.len();
    if at >= total {
        return Err(RecordError::BadLength { offset: at });
    }
    match read_varint(slice_subrange(data, at, total)) {
        None => Err(RecordError::BadLength { offset: at }),
        Some((len, used)) => {
            let start = at + used;
            if len > (total - start) as u64 {
                Err(RecordError::Truncated { offset: at })
            } else {
                Ok((start, start + len as usize))
            }
        },
    }
}

/// Cuts the whole stream into the bodies of its records, in stream order.
/// The stream must be filled by its records exactly: one that ends inside
/// a record is refused as a whole.
pub fn split_records(data: &[u8]) -> (r: Result<Vec<Vec<u8>>, RecordError>)
    ensures
        match r {
            Ok(bodies) => records_from(data@, 0) == Ok::<Seq<Seq<u8>>, RecordError>(
                bodies@.map_values(|b: Vec<u8>| b@),
            ),
            Err(e) => records_from(data@, 0) == Err::<Seq<Seq<u8>>, RecordError>(e),
        },
{
    let total = data.len();
    let mut bodies: Vec<Vec<u8>> = Vec::new();
    let mut at: usize = 0;
    while at < total
        invariant
            total == data@.len(),
            at <= total,
            records_from(data@, 0) == match records_from(data@, at as int) {
                Ok(rest) => Ok::<Seq<Seq<u8>>, RecordError>(
                    bodies@.map_values(|b: Vec<u8>| b@) + rest,
                ),
                Err(e) => Err(e),
            },
        decreases total - at,
    {
        let ghost done = bodies@.map_values(|b: Vec<u8>| b@);
        match next_record(data, at) {
            Err(e) => {
                return Err(e);
            },
            Ok((start, end)) => {
                let body = slice_to_vec(slice_subrange(data, start, end));
                proof {
                    match records_from(data@, end as int) {
                        Ok(rest) => {
                            assert((done + seq![body@]) + rest =~= done + (seq![body@] + rest));
                        },
                        Err(_) => {},
                    }
                }
                bodies.push(body);
                at = end;
                assert(bodies@.map_values(|b: Vec<u8>| b@) =~= done + seq![body@]);
            },
        }
    }
    assert(bodies@.map_values(|b: Vec<u8>| b@) + Seq::<Seq<u8>>::empty() =~= bodies@.map_values(
        |b: Vec<u8>| b@,
    ));
    Ok(bodies)
}

} // verus!
