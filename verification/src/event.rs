//! The record that the kernel side writes for every presented frame.
//!
//! A record is the memory image of a C structure: a 32-bit process id, four
//! bytes of padding, and a 64-bit timestamp. The kernel program is built for the
//! little-endian BPF target, so both numbers are little-endian.

use vstd::prelude::*;

verus! {

/// Size in bytes of the structure, padding included.
pub const EVENT_SIZE: usize = 16;

/// Where the process id starts.
pub const PID_OFFSET: usize = 0;

/// Width of the process id.
pub const PID_SIZE: usize = 4;

/// Where the timestamp starts.
pub const KTIME_OFFSET: usize = 8;

/// Width of the timestamp.
pub const KTIME_SIZE: usize = 8;

/// One frame: who presented it and when, on the kernel's monotonic clock.
#[derive(Clone, Copy, Debug, PartialEq, Eq, Structural)]
pub struct FrameTimestampEvent {
    pub pid: u32,
    pub ktime_ns: u64,
}

/// The number that a run of bytes stands for, least significant byte first.
pub open spec fn le_value(bytes: Seq<u8>) -> nat
    decreases bytes.len(),
{
    if bytes.len() == 0 {
        0
    } else {
        bytes[0] as nat + 256 * le_value(bytes.drop_first())
    }
}

/// The `width` least significant bytes of a number, least significant first.
pub open spec fn le_bytes(value: nat, width: nat) -> Seq<u8>
    decreases width,
{
    if width == 0 {
        Seq::empty()
    } else {
        seq![(value % 256) as u8] + le_bytes(value / 256, (width - 1) as nat)
    }
}

/// How many numbers fit in `width` bytes.
pub open spec fn byte_range(width: nat) -> nat
    decreases width,
{
    if width == 0 {
        1
    } else {
        256 * byte_range((width - 1) as nat)
    }
}

/// The event that a record holds. A record that is too short holds none; what
/// stands in the padding or behind the structure does not matter.
pub open spec fn decoded(record: Seq<u8>) -> Option<FrameTimestampEvent> {
    if record.len() < EVENT_SIZE {
        None
    } else {
        Some(
            FrameTimestampEvent {
                pid: le_value(record.subrange(PID_OFFSET as int, PID_OFFSET + PID_SIZE)) as u32,
                ktime_ns: le_value(
                    record.subrange(KTIME_OFFSET as int, KTIME_OFFSET + KTIME_SIZE),
                ) as u64,
            },
        )
    }
}

/// A record of an event, with the given bytes as padding and behind it.
pub open spec fn encoded(event: FrameTimestampEvent, padding: Seq<u8>, rest: Seq<u8>) -> Seq<u8> {
    le_bytes(event.pid as nat, PID_SIZE as nat) + padding + le_bytes(
        event.ktime_ns as nat,
        KTIME_SIZE as nat,
    ) + rest
}

proof fn lemma_le_value_bound(bytes: Seq<u8>)
    ensures
        le_value(bytes) < byte_range(bytes.len()),
    decreases bytes.len(),
{
    if bytes.len() > 0 {
        lemma_le_value_bound(bytes.drop_first());
    }
}

proof fn lemma_byte_range_monotonic(a: nat, b: nat)
    requires
        a <= b,
    ensures
        byte_range(a) <= byte_range(b),
    decreases b,
{
    if a < b {
        lemma_byte_range_monotonic(a, (b - 1) as nat);
    }
}

proof fn lemma_le_bytes_value(value: nat, width: nat)
    requires
        value < byte_range(width),
    ensures
        le_bytes(value, width).len() == width,
        le_value(le_bytes(value, width)) == value,
    decreases width,
{
    if width > 0 {
        let rest = le_bytes(value / 256, (width - 1) as nat);
        lemma_le_bytes_value(value / 256, (width - 1) as nat);
        assert(le_bytes(value, width).drop_first() =~= rest);
    }
}

proof fn lemma_byte_ranges()
    ensures
        byte_range(4) == 0x1_0000_0000,
        byte_range(7) == 0x100_0000_0000_0000,
        byte_range(8) == 0x1_0000_0000_0000_0000,
{
    reveal_with_fuel(byte_range, 9);
}

/// Reads a little-endian number of `len` bytes at offset `at`.
fn read_le(data: &[u8], at: usize, len: usize) -> (value: u64)
    requires
        at + len <= data.len(),
        len <= 8,
    ensures
        value == le_value(data@.subrange(at as int, at + len)),
{
    let mut value: u64 = 0;
    let mut i: usize = len;
    while i > 0
        invariant
            i <= len <= 8,
            at + len <= data.len(),
            value == le_value(data@.subrange(at + i, at + len)),
        decreases i,
    {
        i = i - 1;
        proof {
            let done = data@.subrange(at + i + 1, at + len);
            lemma_le_value_bound(done);
            lemma_byte_range_monotonic(done.len(), 7);
            lemma_byte_ranges();
            assert(data@.subrange(at + i, at + len).drop_first() =~= done);
        }
        value = data[at + i] as u64 + 256 * value;
    }
    value
}

impl FrameTimestampEvent {
    /// Decodes a record; `None` if it is too short to hold an event.
    pub fn from_record(data: &[u8]) -> (event: Option<FrameTimestampEvent>)
        ensures
            event == decoded(data@),
    {
        if data.len() < EVENT_SIZE {
            return None;
        }
        proof {
            lemma_byte_ranges();
            lemma_le_value_bound(data@.subrange(PID_OFFSET as int, PID_OFFSET + PID_SIZE));
        }
        Some(
            FrameTimestampEvent {
                pid: read_le(data, PID_OFFSET, PID_SIZE) as u32,
                ktime_ns: read_le(data, KTIME_OFFSET, KTIME_SIZE),
            },
        )
    }
}

/// Decoding gives back every event that was encoded, whatever the padding holds
/// and whatever follows the structure.
pub proof fn law_decode_inverts_encode(
    event: FrameTimestampEvent,
    padding: Seq<u8>,
    rest: Seq<u8>,
)
    requires
        padding.len() == KTIME_OFFSET - PID_SIZE,
    ensures
        decoded(encoded(event, padding, rest)) == Some(event),
{
    let record = encoded(event, padding, rest);
    lemma_byte_ranges();
    lemma_le_bytes_value(event.pid as nat, PID_SIZE as nat);
    lemma_le_bytes_value(event.ktime_ns as nat, KTIME_SIZE as nat);
    assert(record.subrange(PID_OFFSET as int, PID_OFFSET + PID_SIZE) =~= le_bytes(
        event.pid as nat,
        PID_SIZE as nat,
    ));
    assert(record.subrange(KTIME_OFFSET as int, KTIME_OFFSET + KTIME_SIZE) =~= le_bytes(
        event.ktime_ns as nat,
        KTIME_SIZE as nat,
    ));
}

/// The fields of a decoded event are the numbers that stand in the record: none
/// of their bits is lost.
pub proof fn law_decode_is_exact(record: Seq<u8>)
    requires
        record.len() >= EVENT_SIZE,
    ensures
        decoded(record) matches Some(event) && {
            &&& event.pid as nat == le_value(record.subrange(0, 4))
            &&& event.ktime_ns as nat == le_value(record.subrange(8, 16))
        },
{
    lemma_byte_ranges();
    lemma_le_value_bound(record.subrange(0, 4));
    lemma_le_value_bound(record.subrange(8, 16));
}

/// A record that is shorter than the structure holds no event, and every other
/// record holds one.
pub proof fn law_length_decides_whether_there_is_an_event(record: Seq<u8>)
    ensures
        decoded(record) is Some <==> record.len() >= 16,
{
}

/// The fields of an event byte by byte: the process id stands in the first four
/// bytes and the timestamp in the last eight of sixteen, the lowest byte first.
pub proof fn law_event_byte_by_byte(record: Seq<u8>)
    requires
        record.len() >= 16,
    ensures
        decoded(record) matches Some(event) && {
            &&& event.pid == record[0] + 0x100 * record[1] + 0x1_0000 * record[2] + 0x100_0000
                * record[3]
            &&& event.ktime_ns == record[8] + 0x100 * record[9] + 0x1_0000 * record[10]
                + 0x100_0000 * record[11] + 0x1_0000_0000 * record[12] + 0x100_0000_0000
                * record[13] + 0x1_0000_0000_0000 * record[14] + 0x100_0000_0000_0000
                * record[15]
        },
{
    let pid_bytes = record.subrange(0, 4);
    let ktime_bytes = record.subrange(8, 16);
    law_decode_is_exact(record);
    reveal_with_fuel(le_value, 9);
    assert(pid_bytes.len() == 4 && ktime_bytes.len() == 8);
}

/// Two records that agree in the bytes of the two fields hold the same event.
pub proof fn law_only_the_fields_matter(a: Seq<u8>, b: Seq<u8>)
    requires
        a.len() >= 16,
        b.len() >= 16,
        forall|i: int| 0 <= i < 4 || 8 <= i < 16 ==> a[i] == b[i],
    ensures
        decoded(a) == decoded(b),
{
    assert(a.subrange(0, 4) =~= b.subrange(0, 4));
    assert(a.subrange(8, 16) =~= b.subrange(8, 16));
}

} // verus!
