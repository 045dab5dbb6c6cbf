//! The command ring that the kernel and the processor share.
//!
//! The shared memory starts with a mailbox, which tells where the ring of command
//! entries lies:
//!
//! | offset | mailbox field                                    |
//! |--------|--------------------------------------------------|
//! | 4      | `u32` offset of the ring from the start          |
//! | 8      | `u32` size of the ring in bytes                  |
//! | 12     | `u32` head, moved by the kernel                  |
//! | 64     | `u32` tail, moved by the processor               |
//!
//! | offset | entry field                                      |
//! |--------|--------------------------------------------------|
//! | 0      | `u32` length in bytes, opcode in the low 3 bits  |
//! | 8      | `u32` number of buffers                          |
//! | 24     | `u64` offset of the CDB from the start           |
//! | 48     | buffers, each a `u64` offset and a `u64` length  |
//! | 8      | in the answer: `u8` SCSI status                  |
//! | 16     | in the answer: sense data, at most 96 bytes      |
//!
//! All numbers are in the byte order of the machine.

use crate::block_device::{BlockDevice, DeviceError};
use crate::bytes;
use crate::bytes::{append_bytes, copy_into, copy_of};
use crate::device;
use crate::device::TcmuDevice;
use crate::response::{Reply, TcmuResponse};
use crate::scsi;
use crate::scsi::{command_has_data_out, SAM_STAT_GOOD};
use crate::semantics;
use vstd::prelude::*;

verus! {

pub const MB_CMDR_OFF: u64 = 4;

pub const MB_CMDR_SIZE: u64 = 8;

pub const MB_CMD_HEAD: u64 = 12;

pub const MB_CMD_TAIL: u64 = 64;

/// An entry that only fills the ring up to its end.
pub const TCMU_OP_PAD: u32 = 0;

/// An entry with a SCSI command.
pub const TCMU_OP_CMD: u32 = 1;

/// Room for sense data in an entry.
pub const TCMU_SENSE_BUFFERSIZE: usize = 96;

pub const ENTRY_LEN_OP: u64 = 0;

pub const ENTRY_IOV_CNT: u64 = 8;

pub const ENTRY_CDB_OFF: u64 = 24;

pub const ENTRY_IOVS: u64 = 48;

pub const ENTRY_RSP_STATUS: u64 = 8;

pub const ENTRY_RSP_SENSE_BUF: u64 = 16;

pub const IOV_BASE: u64 = 0;

pub const IOV_LEN: u64 = 8;

pub const IOV_STRIDE: u64 = 16;

/// Bytes of a CDB in the shared memory.
pub const CDB_LEN: u64 = 16;

/// The order in which a machine stores the bytes of a number.
#[derive(Clone, Copy, Debug, PartialEq, Eq, Structural)]
pub enum ByteOrder {
    /// Least significant byte first.
    Little,
    /// Most significant byte first.
    Big,
}

/// Why the ring cannot be served.
#[derive(Clone, Copy, Debug, PartialEq, Eq, Structural)]
pub enum RingError {
    /// An entry refers to bytes outside the shared memory.
    OutOfBounds,
    /// The ring has no room for entries.
    EmptyRing,
}

/// Where the ring lies in the shared memory.
#[derive(Clone, Copy, Debug, PartialEq, Eq, Structural)]
pub struct Ring {
    /// The byte order of the numbers in the shared memory.
    pub order: ByteOrder,
    /// Offset of the ring from the start of the shared memory.
    pub cmdr_off: u32,
    /// Size of the ring in bytes.
    pub cmdr_size: u32,
}

/// The number that `bytes` hold in this byte order.
pub open spec fn number(order: ByteOrder, bytes: Seq<u8>) -> nat {
    match order {
        ByteOrder::Little => bytes::be_value(bytes.reverse()),
        ByteOrder::Big => bytes::be_value(bytes),
    }
}

/// The number of `width` bytes at `at`, if they lie within the memory.
pub open spec fn word(order: ByteOrder, memory: Seq<u8>, at: int, width: int) -> Option<int> {
    if at + width <= memory.len() {
        Some(number(order, memory.subrange(at, at + width)) as int)
    } else {
        None
    }
}

/// The offset and the length of buffer `i` of the list at `iovs`, if the list reaches
/// that far within the memory.
pub open spec fn buffer_at(order: ByteOrder, memory: Seq<u8>, iovs: int, i: int) -> Option<
    (int, int),
> {
    let at = iovs + 16 * i;
    match (word(order, memory, at, 8), word(order, memory, at + 8, 8)) {
        (Some(offset), Some(len)) => Some((offset, len)),
        _ => None,
    }
}

/// What the first `count` buffers of the list at `iovs` hold, one after the other, if
/// they lie within the memory.
pub open spec fn gathered(order: ByteOrder, memory: Seq<u8>, iovs: int, count: int) -> Option<
    Seq<u8>,
>
    decreases count,
{
    if count <= 0 {
        Some(Seq::empty())
    } else {
        match (
            gathered(order, memory, iovs, count - 1),
            buffer_at(order, memory, iovs, count - 1),
        ) {
            (Some(before), Some((offset, len))) => if offset + len <= memory.len() {
                Some(before + memory.subrange(offset, offset + len))
            } else {
                None
            },
            _ => None,
        }
    }
}

/// The memory after `data` was spread over the buffers of the list at `iovs` from
/// buffer `i` on, up to buffer `count`, and whether every byte that had to be reached
/// lies within the memory.
///
/// What the buffers have no room for is dropped.
pub open spec fn scattered(
    order: ByteOrder,
    memory: Seq<u8>,
    iovs: int,
    i: int,
    count: int,
    data: Seq<u8>,
) -> (Seq<u8>, bool)
    decreases count - i,
{
    if i >= count || data.len() == 0 {
        (memory, true)
    } else {
        match buffer_at(order, memory, iovs, i) {
            None => (memory, false),
            Some((offset, len)) => {
                let n = if len < data.len() {
                    len
                } else {
                    data.len() as int
                };
                if offset + n > memory.len() {
                    (memory, false)
                } else {
                    scattered(
                        order,
                        bytes::splice(memory, offset, data.take(n)),
                        iovs,
                        i + 1,
                        count,
                        data.skip(n),
                    )
                }
            },
        }
    }
}

/// The sense data that fits in an entry.
pub open spec fn entry_sense(sense: Seq<u8>) -> Seq<u8> {
    if sense.len() > TCMU_SENSE_BUFFERSIZE {
        sense.take(TCMU_SENSE_BUFFERSIZE as int)
    } else {
        sense
    }
}

/// The memory after the payload of `reply` was spread over the `count` buffers of the
/// entry at `entry`, if that succeeded.
pub open spec fn payload_stored(
    order: ByteOrder,
    memory: Seq<u8>,
    entry: int,
    count: int,
    reply: Reply,
) -> (Seq<u8>, bool) {
    if reply.status == SAM_STAT_GOOD {
        scattered(order, memory, entry + ENTRY_IOVS, 0, count, reply.data)
    } else {
        (memory, true)
    }
}

/// The memory after `reply` was stored for the entry at `entry` with `count` buffers,
/// and whether every byte that had to be reached lies within the memory.
pub open spec fn completed(
    order: ByteOrder,
    memory: Seq<u8>,
    entry: int,
    count: int,
    reply: Reply,
) -> (Seq<u8>, bool) {
    let (stored, ok) = payload_stored(order, memory, entry, count, reply);
    let sense = entry_sense(reply.sense);
    if !ok || entry + ENTRY_RSP_STATUS >= memory.len() {
        (stored, false)
    } else {
        let marked = bytes::splice(stored, entry + ENTRY_RSP_STATUS, seq![reply.status]);
        if entry + ENTRY_RSP_SENSE_BUF + sense.len() > memory.len() {
            (marked, false)
        } else {
            (bytes::splice(marked, entry + ENTRY_RSP_SENSE_BUF, sense), true)
        }
    }
}

/// What an entry with a command holds.
pub struct Fetched {
    /// The number of its buffers.
    pub count: int,
    /// The command.
    pub cdb: Seq<u8>,
    /// The data that comes with the command.
    pub data_out: Seq<u8>,
}

impl Ring {
    /// The tail after an entry of `len` bytes at `tail`.
    pub open spec fn after(self, tail: u32, len: int) -> Result<u32, RingError> {
        if self.cmdr_size == 0 {
            Err(RingError::EmptyRing)
        } else {
            Ok(((tail + len) % self.cmdr_size as int) as u32)
        }
    }

    /// Where the entry at `tail` lies in the shared memory.
    pub open spec fn entry(self, tail: u32) -> int {
        self.cmdr_off + tail
    }

    /// The data that comes with the command `cdb` of the entry at `tail`, which has
    /// `count` buffers, if they lie within the memory.
    pub open spec fn data_out(self, memory: Seq<u8>, tail: u32, count: int, cdb: Seq<u8>) -> Option<
        Seq<u8>,
    > {
        if scsi::sends_data(cdb[0]) {
            gathered(self.order, memory, self.entry(tail) + ENTRY_IOVS, count)
        } else {
            Some(Seq::empty())
        }
    }

    /// Whether the entry at `tail` is a command.
    pub open spec fn is_command(self, memory: Seq<u8>, tail: u32) -> bool {
        match word(self.order, memory, self.entry(tail) + ENTRY_LEN_OP, 4) {
            Some(len_op) => len_op % 8 == TCMU_OP_CMD && len_op >= 8,
            None => false,
        }
    }

    /// What the entry at `tail` holds as a command, if that lies within the memory.
    pub open spec fn fetched(self, memory: Seq<u8>, tail: u32) -> Option<Fetched> {
        let entry = self.entry(tail);
        match (
            word(self.order, memory, entry + ENTRY_IOV_CNT, 4),
            word(self.order, memory, entry + ENTRY_CDB_OFF, 8),
        ) {
            (Some(count), Some(cdb_off)) => {
                let cdb = memory.subrange(cdb_off, cdb_off + CDB_LEN);
                if cdb_off + CDB_LEN > memory.len() {
                    None
                } else {
                    match self.data_out(memory, tail, count, cdb) {
                        Some(data_out) => Some(Fetched { count, cdb, data_out }),
                        None => None,
                    }
                }
            },
            _ => None,
        }
    }

    /// Whether executing what was fetched from the entry of `len` bytes at `tail` may
    /// turn `pre` into `post`, `memory` into `updated` and give `result`.
    pub open spec fn command_served<D: BlockDevice>(
        self,
        pre: TcmuDevice<D>,
        memory: Seq<u8>,
        tail: u32,
        len: int,
        fetched: Fetched,
        post: TcmuDevice<D>,
        updated: Seq<u8>,
        result: Result<u32, RingError>,
    ) -> bool {
        exists|reply: Reply|
            {
                &&& #[trigger] device::executed(pre, fetched.cdb, fetched.data_out, post, reply)
                &&& (updated, result) == ({
                    let (stored, ok) = completed(
                        self.order,
                        memory,
                        self.entry(tail),
                        fetched.count,
                        reply,
                    );
                    (
                        stored,
                        if ok {
                            self.after(tail, len)
                        } else {
                            Err(RingError::OutOfBounds)
                        },
                    )
                })
            }
    }

    /// Whether serving the entry at `tail` may turn `pre` into `post`, `memory` into
    /// `updated`, and give `result`: the new tail, or why there is none.
    ///
    /// A padding entry sends the tail back to the start of the ring; an entry that is
    /// neither that nor a command is skipped.
    pub open spec fn served<D: BlockDevice>(
        self,
        pre: TcmuDevice<D>,
        memory: Seq<u8>,
        tail: u32,
        post: TcmuDevice<D>,
        updated: Seq<u8>,
        result: Result<u32, RingError>,
    ) -> bool {
        let entry = self.entry(tail);
        let unchanged = post == pre && updated == memory;
        match word(self.order, memory, entry + ENTRY_LEN_OP, 4) {
            None => unchanged && result == Err::<u32, RingError>(RingError::OutOfBounds),
            Some(len_op) => {
                let opcode = len_op % 8;
                let len = len_op - opcode;
                if opcode == TCMU_OP_PAD {
                    unchanged && result == Ok::<u32, RingError>(0)
                } else if opcode != TCMU_OP_CMD || len == 0 {
                    unchanged && result == self.after(
                        tail,
                        if len < 8 {
                            8
                        } else {
                            len
                        },
                    )
                } else {
                    match self.fetched(memory, tail) {
                        Some(fetched) => self.command_served(
                            pre,
                            memory,
                            tail,
                            len,
                            fetched,
                            post,
                            updated,
                            result,
                        ),
                        None => unchanged && result == Err::<u32, RingError>(
                            RingError::OutOfBounds,
                        ),
                    }
                }
            },
        }
    }
}

/// The number of `width` bytes at `at`, in the given byte order.
fn load_number(order: ByteOrder, memory: &[u8], at: usize, width: usize) -> (value: u64)
    requires
        at + width <= memory@.len(),
        width <= 8,
    ensures
        value == number(order, memory@.subrange(at as int, at + width)),
        value < bytes::byte_range(width as nat),
{
    let ghost stored = memory@.subrange(at as int, at + width);
    let ghost digits = match order {
        ByteOrder::Little => stored.reverse(),
        ByteOrder::Big => stored,
    };
    let mut value: u64 = 0;
    let mut i: usize = 0;
    assert(bytes::byte_range(8) == 0x1_0000_0000_0000_0000) by {
        reveal_with_fuel(bytes::byte_range, 9);
    }
    let end: usize = memory.len();
    while i < width
        invariant
            at + width <= end,
            end == memory@.len(),
            width <= 8,
            i <= width,
            digits.len() == width,
            stored == memory@.subrange(at as int, at + width),
            digits == match order {
                ByteOrder::Little => stored.reverse(),
                ByteOrder::Big => stored,
            },
            value == bytes::be_value(digits.take(i as int)),
            value < bytes::byte_range(i as nat),
            bytes::byte_range(8) == 0x1_0000_0000_0000_0000,
        decreases width - i,
    {
        let ghost next = digits.take(i + 1);
        assert(next.drop_last() =~= digits.take(i as int));
        proof {
            bytes::byte_range_monotonic((i + 1) as nat, 8);
        }
        let digit: u8 = match order {
            ByteOrder::Little => memory[at + (width - 1 - i)],
            ByteOrder::Big => memory[at + i],
        };
        value = value * 256 + digit as u64;
        i = i + 1;
    }
    assert(digits.take(width as int) =~= digits);
    value
}

/// The four-byte number at `at`, if it lies within the memory.
fn load_u32(order: ByteOrder, memory: &[u8], at: u64) -> (value: Option<u32>)
    ensures
        value is Some <==> word(order, memory@, at as int, 4) is Some,
        value matches Some(n) ==> word(order, memory@, at as int, 4) == Some(n as int),
{
    let end: u64 = memory.len() as u64;
    if end < 4 || at > end - 4 {
        return None;
    }
    assert(bytes::byte_range(4) == 0x1_0000_0000) by {
        reveal_with_fuel(bytes::byte_range, 5);
    }
    Some(load_number(order, memory, at as usize, 4) as u32)
}

/// The eight-byte number at `at`, if it lies within the memory.
fn load_u64(order: ByteOrder, memory: &[u8], at: u64) -> (value: Option<u64>)
    ensures
        value is Some <==> word(order, memory@, at as int, 8) is Some,
        value matches Some(n) ==> word(order, memory@, at as int, 8) == Some(n as int),
{
    let end: u64 = memory.len() as u64;
    if end < 8 || at > end - 8 {
        return None;
    }
    Some(load_number(order, memory, at as usize, 8))
}

/// The offset and the length of buffer `i` of the list at `iovs`.
fn load_buffer(order: ByteOrder, memory: &[u8], iovs: u64, i: u32) -> (buffer: Option<(u64, u64)>)
    requires
        iovs <= 0x4_0000_0000,
    ensures
        buffer is Some <==> buffer_at(order, memory@, iovs as int, i as int) is Some,
        buffer matches Some((offset, len)) ==> buffer_at(order, memory@, iovs as int, i as int)
            == Some((offset as int, len as int)),
{
    let at: u64 = iovs + i as u64 * 16;
    let offset: u64 = match load_u64(order, memory, at) {
        Some(offset) => offset,
        None => {
            return None;
        },
    };
    match load_u64(order, memory, at + 8) {
        Some(len) => Some((offset, len)),
        None => None,
    }
}

/// Where some buffers do not lie within the memory, more buffers do not either.
proof fn gathered_none_is_final(
    order: ByteOrder,
    memory: Seq<u8>,
    iovs: int,
    few: int,
    many: int,
)
    requires
        few <= many,
        gathered(order, memory, iovs, few) is None,
    ensures
        gathered(order, memory, iovs, many) is None,
    decreases many - few,
{
    if few < many {
        gathered_none_is_final(order, memory, iovs, few, many - 1);
    }
}

/// What the `count` buffers of the list at `iovs` hold, one after the other.
fn gather(order: ByteOrder, memory: &[u8], iovs: u64, count: u32) -> (data: Option<Vec<u8>>)
    requires
        iovs <= 0x4_0000_0000,
    ensures
        data is Some <==> gathered(order, memory@, iovs as int, count as int) is Some,
        data matches Some(held) ==> gathered(order, memory@, iovs as int, count as int) == Some(
            held@,
        ),
{
    let end: u64 = memory.len() as u64;
    let mut data: Vec<u8> = Vec::new();
    let mut i: u32 = 0;
    while i < count
        invariant
            i <= count,
            iovs <= 0x4_0000_0000,
            end == memory@.len(),
            end <= usize::MAX,
            gathered(order, memory@, iovs as int, i as int) == Some(data@),
        decreases count - i,
    {
        match load_buffer(order, memory, iovs, i) {
            Some((offset, len)) if offset <= end && len <= end - offset => {
                append_bytes(&mut data, &memory[offset as usize..(offset + len) as usize]);
            },
            _ => {
                proof {
                    gathered_none_is_final(order, memory@, iovs as int, i + 1, count as int);
                }
                return None;
            },
        }
        i = i + 1;
    }
    Some(data)
}

/// Spreading data over buffers keeps the size of the memory.
pub proof fn scattered_keeps_the_size(
    order: ByteOrder,
    memory: Seq<u8>,
    iovs: int,
    i: int,
    count: int,
    data: Seq<u8>,
)
    ensures
        scattered(order, memory, iovs, i, count, data).0.len() == memory.len(),
    decreases count - i,
{
    if i < count && data.len() > 0 {
        if let Some((offset, len)) = buffer_at(order, memory, iovs, i) {
            let n = if len < data.len() {
                len
            } else {
                data.len() as int
            };
            if offset + n <= memory.len() {
                scattered_keeps_the_size(
                    order,
                    bytes::splice(memory, offset, data.take(n)),
                    iovs,
                    i + 1,
                    count,
                    data.skip(n),
                );
            }
        }
    }
}

/// Spreads `data` over the `count` buffers of the list at `iovs`; `false` where a byte
/// that has to be reached does not lie within the memory.
fn scatter(order: ByteOrder, memory: &mut [u8], iovs: u64, count: u32, data: &[u8]) -> (ok: bool)
    requires
        iovs <= 0x4_0000_0000,
    ensures
        (final(memory)@, ok) == scattered(
            order,
            old(memory)@,
            iovs as int,
            0,
            count as int,
            data@,
        ),
{
    let ghost before = memory@;
    let end: u64 = memory.len() as u64;
    let total: usize = data.len();
    let mut done: usize = 0;
    let mut i: u32 = 0;
    assert(data@.skip(0) =~= data@);
    while i < count && done < total
        invariant
            i <= count,
            done <= total,
            total == data@.len(),
            iovs <= 0x4_0000_0000,
            end == memory@.len(),
            end <= usize::MAX,
            before == old(memory)@,
            scattered(order, before, iovs as int, 0, count as int, data@) == scattered(
                order,
                memory@,
                iovs as int,
                i as int,
                count as int,
                data@.skip(done as int),
            ),
        decreases count - i,
    {
        let left: usize = total - done;
        let ghost rest = data@.skip(done as int);
        let (offset, len) = match load_buffer(order, memory, iovs, i) {
            Some(buffer) => buffer,
            None => {
                return false;
            },
        };
        let n: usize = if len < left as u64 {
            len as usize
        } else {
            left
        };
        if offset > end || n as u64 > end - offset {
            return false;
        }
        copy_into(memory, offset as usize, &data[done..done + n]);
        proof {
            assert(data@.subrange(done as int, done + n) =~= rest.take(n as int));
            assert(data@.skip(done + n) =~= rest.skip(n as int));
        }
        done = done + n;
        i = i + 1;
    }
    true
}

/// Stores `response` for the entry at `entry` with `count` buffers; `false` where a
/// byte that has to be reached does not lie within the memory.
fn complete(
    order: ByteOrder,
    memory: &mut [u8],
    entry: u64,
    count: u32,
    response: &TcmuResponse,
) -> (ok: bool)
    requires
        entry <= 0x2_0000_0000,
    ensures
        (final(memory)@, ok) == completed(
            order,
            old(memory)@,
            entry as int,
            count as int,
            response@,
        ),
{
    let end: u64 = memory.len() as u64;
    proof {
        scattered_keeps_the_size(
            order,
            memory@,
            entry + ENTRY_IOVS,
            0,
            count as int,
            response.data@,
        );
    }
    if response.status == SAM_STAT_GOOD {
        if !scatter(order, memory, entry + ENTRY_IOVS, count, response.data.as_slice()) {
            return false;
        }
    }
    if entry + ENTRY_RSP_STATUS >= end {
        return false;
    }
    let ghost stored = memory@;
    let at: usize = (entry + ENTRY_RSP_STATUS) as usize;
    memory[at] = response.status;
    assert(memory@ =~= bytes::splice(
        stored,
        entry + ENTRY_RSP_STATUS,
        seq![response.status],
    ));
    let sense_len: usize = if response.sense.len() > TCMU_SENSE_BUFFERSIZE {
        TCMU_SENSE_BUFFERSIZE
    } else {
        response.sense.len()
    };
    let sense: &[u8] = &response.sense.as_slice()[0..sense_len];
    assert(sense@ =~= entry_sense(response.sense@));
    if entry + ENTRY_RSP_SENSE_BUF + sense_len as u64 > end {
        return false;
    }
    copy_into(memory, (entry + ENTRY_RSP_SENSE_BUF) as usize, sense);
    true
}

impl Ring {
    /// Reads from the mailbox of the shared memory where the ring lies.
    pub fn attach(memory: &[u8], order: ByteOrder) -> (ring: Result<Ring, RingError>)
        ensures
            ring is Ok <==> memory@.len() >= 12,
            ring is Err ==> ring == Err::<Ring, RingError>(RingError::OutOfBounds),
            ring matches Ok(found) ==> {
                &&& found.order == order
                &&& Some(found.cmdr_off as int) == word(order, memory@, MB_CMDR_OFF as int, 4)
                &&& Some(found.cmdr_size as int) == word(order, memory@, MB_CMDR_SIZE as int, 4)
            },
    {
        let cmdr_off = load_u32(order, memory, MB_CMDR_OFF);
        let cmdr_size = load_u32(order, memory, MB_CMDR_SIZE);
        match (cmdr_off, cmdr_size) {
            (Some(cmdr_off), Some(cmdr_size)) => Ok(Ring { order, cmdr_off, cmdr_size }),
            _ => Err(RingError::OutOfBounds),
        }
    }

    /// The tail after an entry of `len` bytes at `tail`.
    fn advance(&self, tail: u32, len: u32) -> (result: Result<u32, RingError>)
        ensures
            result == self.after(tail, len as int),
    {
        if self.cmdr_size == 0 {
            Err(RingError::EmptyRing)
        } else {
            Ok(((tail as u64 + len as u64) % self.cmdr_size as u64) as u32)
        }
    }

    /// Executes the command `cdb` of the entry at `entry`, which has `count` buffers, and
    /// stores the answer; `false` where a byte that has to be reached does not lie within
    /// the memory.
    fn serve_command<D: BlockDevice>(
        &self,
        memory: &mut [u8],
        entry: u64,
        count: u32,
        cdb: &[u8],
        data_out: &[u8],
        device: &mut TcmuDevice<D>,
    ) -> (ok: bool)
        requires
            entry <= 0x2_0000_0000,
        ensures
            exists|reply: Reply|
                {
                    &&& #[trigger] device::executed(
                        *old(device),
                        cdb@,
                        data_out@,
                        *final(device),
                        reply,
                    )
                    &&& (final(memory)@, ok) == completed(
                        self.order,
                        old(memory)@,
                        entry as int,
                        count as int,
                        reply,
                    )
                    &&& semantics::writing_is_due(
                        old(device).backing(),
                        cdb@,
                        data_out@,
                        reply,
                    ) ==> exists|
                        target: &mut D,
                        offset: u64,
                        slice: &[u8],
                        written: Result<(), DeviceError>,
                    |
                        {
                            &&& #[trigger] call_ensures(
                                D::write_at,
                                (target, offset, slice),
                                written,
                            )
                            &&& semantics::last_write_made(
                                old(device).backing(),
                                cdb@,
                                data_out@,
                                *target,
                                offset,
                                slice@,
                                written is Ok,
                                reply,
                            )
                            &&& *final(target) == final(device).backing()
                        }
                },
    {
        let response = device.execute(cdb, data_out);
        complete(self.order, memory, entry, count, &response)
    }

    /// Serves the entry at `tail`: executes its command, stores the answer and returns
    /// the tail that tells the kernel so.
    pub fn serve_entry<D: BlockDevice>(
        &self,
        memory: &mut [u8],
        tail: u32,
        device: &mut TcmuDevice<D>,
    ) -> (result: Result<u32, RingError>)
        ensures
            self.served(
                *old(device),
                old(memory)@,
                tail,
                *final(device),
                final(memory)@,
                result,
            ),
            (self.is_command(old(memory)@, tail) ==> (self.fetched(old(memory)@, tail) matches Some(
                fetched,
            ) ==> exists|reply: Reply|
                {
                    &&& #[trigger] device::executed(
                        *old(device),
                        fetched.cdb,
                        fetched.data_out,
                        *final(device),
                        reply,
                    )
                    &&& final(memory)@ == completed(
                        self.order,
                        old(memory)@,
                        self.entry(tail),
                        fetched.count,
                        reply,
                    ).0
                    &&& semantics::writing_is_due(
                        old(device).backing(),
                        fetched.cdb,
                        fetched.data_out,
                        reply,
                    ) ==> exists|
                        target: &mut D,
                        offset: u64,
                        slice: &[u8],
                        written: Result<(), DeviceError>,
                    |
                        {
                            &&& #[trigger] call_ensures(
                                D::write_at,
                                (target, offset, slice),
                                written,
                            )
                            &&& semantics::last_write_made(
                                old(device).backing(),
                                fetched.cdb,
                                fetched.data_out,
                                *target,
                                offset,
                                slice@,
                                written is Ok,
                                reply,
                            )
                            &&& *final(target) == final(device).backing()
                        }
                })),
    {
        let entry: u64 = self.cmdr_off as u64 + tail as u64;
        let len_op: u32 = match load_u32(self.order, memory, entry + ENTRY_LEN_OP) {
            Some(len_op) => len_op,
            None => {
                return Err(RingError::OutOfBounds);
            },
        };
        let opcode: u32 = len_op % 8;
        let len: u32 = len_op - opcode;
        if opcode == TCMU_OP_PAD {
            return Ok(0);
        }
        if opcode != TCMU_OP_CMD || len == 0 {
            return self.advance(
                tail,
                if len < 8 {
                    8
                } else {
                    len
                },
            );
        }
        let count = load_u32(self.order, memory, entry + ENTRY_IOV_CNT);
        let cdb_off = load_u64(self.order, memory, entry + ENTRY_CDB_OFF);
        let end: u64 = memory.len() as u64;
        match (count, cdb_off) {
            (Some(count), Some(cdb_off)) => {
                if end < CDB_LEN || cdb_off > end - CDB_LEN {
                    return Err(RingError::OutOfBounds);
                }
                let cdb = copy_of(&memory[cdb_off as usize..(cdb_off + CDB_LEN) as usize]);
                let data_out: Vec<u8> = if command_has_data_out(cdb[0]) {
                    match gather(self.order, memory, entry + ENTRY_IOVS, count) {
                        Some(data_out) => data_out,
                        None => {
                            return Err(RingError::OutOfBounds);
                        },
                    }
                } else {
                    Vec::new()
                };
                let command: &[u8] = cdb.as_slice();
                let data: &[u8] = data_out.as_slice();
                let ghost fetched = self.fetched(old(memory)@, tail)->Some_0;
                assert(fetched.cdb == command@ && fetched.data_out == data@);
                let ok = self.serve_command(memory, entry, count, command, data, device);
                if ok {
                    self.advance(tail, len)
                } else {
                    Err(RingError::OutOfBounds)
                }
            },
            _ => Err(RingError::OutOfBounds),
        }
    }

    /// Serves the next entry, if the kernel has put one between `tail` and `head`, and
    /// returns the new tail.
    pub fn serve_next<D: BlockDevice>(
        &self,
        memory: &mut [u8],
        head: u32,
        tail: u32,
        device: &mut TcmuDevice<D>,
    ) -> (result: Result<Option<u32>, RingError>)
        ensures
            head == tail ==> *final(device) == *old(device) && final(memory)@ == old(memory)@
                && result == Ok::<Option<u32>, RingError>(None),
            head != tail ==> result != Ok::<Option<u32>, RingError>(None) && self.served(
                *old(device),
                old(memory)@,
                tail,
                *final(device),
                final(memory)@,
                match result {
                    Ok(new_tail) => Ok(new_tail->Some_0),
                    Err(error) => Err(error),
                },
            ),
            head != tail ==> (self.is_command(old(memory)@, tail) ==> (self.fetched(old(memory)@, tail) matches Some(
                fetched,
            ) ==> exists|reply: Reply|
                {
                    &&& #[trigger] device::executed(
                        *old(device),
                        fetched.cdb,
                        fetched.data_out,
                        *final(device),
                        reply,
                    )
                    &&& final(memory)@ == completed(
                        self.order,
                        old(memory)@,
                        self.entry(tail),
                        fetched.count,
                        reply,
                    ).0
                    &&& semantics::writing_is_due(
                        old(device).backing(),
                        fetched.cdb,
                        fetched.data_out,
                        reply,
                    ) ==> exists|
                        target: &mut D,
                        offset: u64,
                        slice: &[u8],
                        written: Result<(), DeviceError>,
                    |
                        {
                            &&& #[trigger] call_ensures(
                                D::write_at,
                                (target, offset, slice),
                                written,
                            )
                            &&& semantics::last_write_made(
                                old(device).backing(),
                                fetched.cdb,
                                fetched.data_out,
                                *target,
                                offset,
                                slice@,
                                written is Ok,
                                reply,
                            )
                            &&& *final(target) == final(device).backing()
                        }
                })),
    {
        if head == tail {
            return Ok(None);
        }
        match self.serve_entry(memory, tail, device) {
            Ok(new_tail) => Ok(Some(new_tail)),
            Err(error) => Err(error),
        }
    }
}

} // verus!
