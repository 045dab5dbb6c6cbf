//! What serving the command ring does, told from the bytes of the shared memory.

use crate::block_device::BlockDevice;
use crate::bytes;
use crate::device;
use crate::device::TcmuDevice;
use crate::response::Reply;
use crate::ring;
use crate::ring::{ByteOrder, Ring, RingError};
use crate::ring_laws;
use crate::wire_laws;
use vstd::prelude::*;

verus! {

/// The four bytes at `at` as a number in this byte order.
pub open spec fn raw_u32(order: ByteOrder, memory: Seq<u8>, at: int) -> int {
    match order {
        ByteOrder::Little => memory[at] as int + memory[at + 1] as int * 0x100 + memory[at + 2]
            as int * 0x1_0000 + memory[at + 3] as int * 0x100_0000,
        ByteOrder::Big => memory[at] as int * 0x100_0000 + memory[at + 1] as int * 0x1_0000
            + memory[at + 2] as int * 0x100 + memory[at + 3] as int,
    }
}

/// The eight bytes at `at` as a number in this byte order.
#[verifier::opaque]
pub open spec fn raw_u64(order: ByteOrder, memory: Seq<u8>, at: int) -> int {
    match order {
        ByteOrder::Little => raw_u32(order, memory, at) + raw_u32(order, memory, at + 4)
            * 0x1_0000_0000,
        ByteOrder::Big => raw_u32(order, memory, at) * 0x1_0000_0000 + raw_u32(
            order,
            memory,
            at + 4,
        ),
    }
}

/// A number is read exactly where its bytes lie within the memory, in the byte order of
/// the machine.
pub proof fn numbers_in_memory(order: ByteOrder, memory: Seq<u8>, at: int)
    requires
        0 <= at,
    ensures
        at + 4 <= memory.len() ==> ring::word(order, memory, at, 4) == Some(
            raw_u32(order, memory, at),
        ),
        at + 4 > memory.len() ==> ring::word(order, memory, at, 4) is None,
        at + 8 <= memory.len() ==> ring::word(order, memory, at, 8) == Some(
            raw_u64(order, memory, at),
        ),
        at + 8 > memory.len() ==> ring::word(order, memory, at, 8) is None,
{
    reveal(raw_u64);
    wire_laws::big_endian_numbers(memory, at);
    if at + 4 <= memory.len() {
        let turned = memory.subrange(at, at + 4).reverse();
        wire_laws::big_endian_numbers(turned, 0);
        assert(turned.subrange(0, 4) =~= turned);
    }
    if at + 8 <= memory.len() {
        let turned = memory.subrange(at, at + 8).reverse();
        wire_laws::big_endian_numbers(turned, 0);
        assert(turned.subrange(0, 8) =~= turned);
    }
}

/// The offset of buffer `i` of the list at `iovs`: the first eight bytes of its sixteen.
pub open spec fn offset_of(order: ByteOrder, memory: Seq<u8>, iovs: int, i: int) -> int {
    raw_u64(order, memory, iovs + 16 * i)
}

/// The length of buffer `i` of the list at `iovs`: the last eight bytes of its sixteen.
pub open spec fn len_of(order: ByteOrder, memory: Seq<u8>, iovs: int, i: int) -> int {
    raw_u64(order, memory, iovs + 16 * i + 8)
}

/// How many bytes the first `i` buffers of the list at `iovs` hold together.
pub open spec fn room_before(order: ByteOrder, memory: Seq<u8>, iovs: int, i: int) -> int
    decreases i,
{
    if i <= 0 {
        0
    } else {
        room_before(order, memory, iovs, i - 1) + len_of(order, memory, iovs, i - 1)
    }
}

/// Whether position `at` lies in buffer `i` of the list at `iovs`.
pub open spec fn lies_in(order: ByteOrder, memory: Seq<u8>, iovs: int, i: int, at: int) -> bool {
    let offset = offset_of(order, memory, iovs, i);
    offset <= at < offset + len_of(order, memory, iovs, i)
}

/// Whether the list of `count` buffers at `iovs` and the buffers lie within the memory,
/// the buffers clear of the list and of each other.
pub open spec fn well_placed(order: ByteOrder, memory: Seq<u8>, iovs: int, count: int) -> bool {
    &&& 0 <= iovs
    &&& 0 <= count
    &&& iovs + 16 * count <= memory.len()
    &&& forall|i: int|
        0 <= i < count ==> {
            let offset = #[trigger] offset_of(order, memory, iovs, i);
            let len = len_of(order, memory, iovs, i);
            &&& offset + len <= memory.len()
            &&& offset + len <= iovs || iovs + 16 * count <= offset
        }
    &&& forall|i: int, j: int, at: int|
        0 <= i < j < count && #[trigger] lies_in(order, memory, iovs, i, at) ==> !#[trigger] lies_in(
            order,
            memory,
            iovs,
            j,
            at,
        )
}

/// Buffer `i` of a list is exactly what its sixteen bytes say, whatever the length, and
/// there is one exactly where those lie within the memory.
pub proof fn buffers_in_memory(order: ByteOrder, memory: Seq<u8>, iovs: int, i: int)
    requires
        0 <= iovs,
        0 <= i,
    ensures
        iovs + 16 * i + 16 <= memory.len() ==> ring::buffer_at(order, memory, iovs, i) == Some(
            (offset_of(order, memory, iovs, i), len_of(order, memory, iovs, i)),
        ),
        iovs + 16 * i + 16 > memory.len() ==> ring::buffer_at(order, memory, iovs, i) is None,
        iovs + 16 * i + 16 <= memory.len() ==> offset_of(order, memory, iovs, i) >= 0 && len_of(
            order,
            memory,
            iovs,
            i,
        ) >= 0,
{
    numbers_in_memory(order, memory, iovs + 16 * i);
    numbers_in_memory(order, memory, iovs + 16 * i + 8);
}

/// Well-placed buffers lie clear of their list and of each other.
proof fn well_placed_is_clear(order: ByteOrder, memory: Seq<u8>, iovs: int, count: int)
    requires
        well_placed(order, memory, iovs, count),
    ensures
        ring_laws::buffers_are_clear(order, memory, iovs, count),
        ring_laws::buffers_are_disjoint(order, memory, iovs, count),
{
    assert forall|i: int| 0 <= i < count implies #[trigger] ring_laws::buffer_is_clear(
        order,
        memory,
        iovs,
        count,
        i,
    ) by {
        buffers_in_memory(order, memory, iovs, i);
        assert(offset_of(order, memory, iovs, i) >= 0);
    }
    assert forall|i: int, j: int, at: int|
        0 <= i < j < count && #[trigger] ring_laws::in_buffer(
            order,
            memory,
            iovs,
            i,
            at,
        ) implies !#[trigger] ring_laws::in_buffer(order, memory, iovs, j, at) by {
        buffers_in_memory(order, memory, iovs, i);
        buffers_in_memory(order, memory, iovs, j);
        assert(lies_in(order, memory, iovs, i, at));
        assert(!lies_in(order, memory, iovs, j, at));
    }
}

/// Whether byte `p` of buffer `i` is where it belongs in `data`, behind all bytes of the
/// buffers before.
pub open spec fn byte_is_gathered(
    order: ByteOrder,
    memory: Seq<u8>,
    iovs: int,
    data: Seq<u8>,
    i: int,
    p: int,
) -> bool {
    let k = room_before(order, memory, iovs, i) + p;
    &&& 0 <= k < data.len()
    &&& data[k] == memory[offset_of(order, memory, iovs, i) + p]
}

/// Whether buffer `i` ends within the memory.
pub open spec fn ends_within(order: ByteOrder, memory: Seq<u8>, iovs: int, i: int) -> bool {
    offset_of(order, memory, iovs, i) + len_of(order, memory, iovs, i) <= memory.len()
}

/// Gathering fails exactly where a buffer, or its place in the list, lies outside the
/// memory.
pub proof fn buffers_that_are_gathered(order: ByteOrder, memory: Seq<u8>, iovs: int, count: int)
    requires
        0 <= iovs,
        0 <= count,
    ensures
        ring::gathered(order, memory, iovs, count) is Some <==> (count > 0 ==> iovs + 16 * count
            <= memory.len()) && forall|i: int|
            0 <= i < count ==> #[trigger] ends_within(order, memory, iovs, i),
    decreases count,
{
    if count > 0 {
        let last = count - 1;
        buffers_that_are_gathered(order, memory, iovs, last);
        buffers_in_memory(order, memory, iovs, last);
        if ring::gathered(order, memory, iovs, count) is None {
            if iovs + 16 * count <= memory.len() && ring::gathered(order, memory, iovs, last)
                is Some {
                assert(!ends_within(order, memory, iovs, last));
            }
        }
    }
}

/// Gathering gives every byte of every buffer, in the order of the list, and nothing
/// else.
pub proof fn gathered_bytes(order: ByteOrder, memory: Seq<u8>, iovs: int, count: int)
    requires
        0 <= iovs,
        0 <= count,
    ensures
        ring::gathered(order, memory, iovs, count) matches Some(data) ==> {
            &&& data.len() == room_before(order, memory, iovs, count)
            &&& forall|i: int, p: int|
                0 <= i < count && 0 <= p < len_of(order, memory, iovs, i)
                    ==> #[trigger] byte_is_gathered(order, memory, iovs, data, i, p)
        },
    decreases count,
{
    if count > 0 && ring::gathered(order, memory, iovs, count) is Some {
        let last = count - 1;
        gathered_bytes(order, memory, iovs, last);
        buffers_in_memory(order, memory, iovs, last);
        let before = ring::gathered(order, memory, iovs, last)->Some_0;
        let data = ring::gathered(order, memory, iovs, count)->Some_0;
        let offset = offset_of(order, memory, iovs, last);
        let piece = memory.subrange(offset, offset + len_of(order, memory, iovs, last));
        assert(data == before + piece);
        assert forall|i: int, p: int|
            0 <= i < count && 0 <= p < len_of(
                order,
                memory,
                iovs,
                i,
            ) implies #[trigger] byte_is_gathered(order, memory, iovs, data, i, p) by {
            if i < last {
                assert(byte_is_gathered(order, memory, iovs, before, i, p));
            } else {
                assert(piece[p] == memory[offset + p]);
            }
        }
    }
}

/// Whether byte `p` of buffer `i` holds, in `updated`, its byte of `data`, or what it held
/// where `data` is at its end before.
pub open spec fn byte_is_scattered(
    order: ByteOrder,
    memory: Seq<u8>,
    iovs: int,
    data: Seq<u8>,
    updated: Seq<u8>,
    i: int,
    p: int,
) -> bool {
    let k = room_before(order, memory, iovs, i) + p;
    let at = offset_of(order, memory, iovs, i) + p;
    updated[at] == if k < data.len() {
        data[k]
    } else {
        memory[at]
    }
}

/// Whether no buffer of the list at `iovs` has position `at`.
pub open spec fn is_outside(
    order: ByteOrder,
    memory: Seq<u8>,
    iovs: int,
    count: int,
    at: int,
) -> bool {
    forall|i: int| 0 <= i < count ==> !#[trigger] lies_in(order, memory, iovs, i, at)
}

/// Spreading data over well-placed buffers puts byte `k` of the data at the place of byte
/// `k` of the buffers taken one after the other, and leaves the rest of the buffers, and
/// every byte outside them, as they were.
pub proof fn scattered_bytes(
    order: ByteOrder,
    memory: Seq<u8>,
    iovs: int,
    count: int,
    data: Seq<u8>,
)
    requires
        well_placed(order, memory, iovs, count),
    ensures
        ({
            let (updated, ok) = ring::scattered(order, memory, iovs, 0, count, data);
            &&& ok
            &&& updated.len() == memory.len()
            &&& forall|i: int, p: int|
                0 <= i < count && 0 <= p < len_of(order, memory, iovs, i)
                    ==> #[trigger] byte_is_scattered(order, memory, iovs, data, updated, i, p)
            &&& forall|at: int|
                0 <= at < memory.len() && is_outside(order, memory, iovs, count, at)
                    ==> #[trigger] updated[at] == memory[at]
        }),
{
    let updated = ring::scattered(order, memory, iovs, 0, count, data).0;
    well_placed_is_clear(order, memory, iovs, count);
    ring_laws::scattered_stays_in_the_buffers(order, memory, iovs, 0, count, data);
    ring_laws::gathering_returns_what_was_scattered(order, memory, iovs, count, data);
    gathered_bytes(order, memory, iovs, count);
    gathered_bytes(order, updated, iovs, count);
    assert forall|i: int| 0 <= i < count implies #[trigger] same_buffer(
        order,
        memory,
        updated,
        iovs,
        i,
    ) by {
        buffers_in_memory(order, memory, iovs, i);
        buffers_in_memory(order, updated, iovs, i);
        assert(ring::buffer_at(order, updated, iovs, i) == ring::buffer_at(order, memory, iovs, i));
    }
    let held = ring::gathered(order, memory, iovs, count)->Some_0;
    let now = ring::gathered(order, updated, iovs, count)->Some_0;
    assert(now == ring_laws::overlaid(held, data));
    assert forall|i: int, p: int|
        0 <= i < count && 0 <= p < len_of(
            order,
            memory,
            iovs,
            i,
        ) implies #[trigger] byte_is_scattered(order, memory, iovs, data, updated, i, p) by {
        assert(same_buffer(order, memory, updated, iovs, i));
        same_room(order, memory, updated, iovs, i, count);
        assert(byte_is_gathered(order, memory, iovs, held, i, p));
        assert(byte_is_gathered(order, updated, iovs, now, i, p));
    }
    assert forall|at: int|
        0 <= at < memory.len() && is_outside(
            order,
            memory,
            iovs,
            count,
            at,
        ) implies #[trigger] updated[at] == memory[at] by {
        assert forall|j: int| 0 <= j < count implies !#[trigger] ring_laws::in_buffer(
            order,
            memory,
            iovs,
            j,
            at,
        ) by {
            buffers_in_memory(order, memory, iovs, j);
            assert(!lies_in(order, memory, iovs, j, at));
        }
    }
}

/// Whether two memories say the same of buffer `i`.
spec fn same_buffer(order: ByteOrder, one: Seq<u8>, other: Seq<u8>, iovs: int, i: int) -> bool {
    &&& offset_of(order, other, iovs, i) == offset_of(order, one, iovs, i)
    &&& len_of(order, other, iovs, i) == len_of(order, one, iovs, i)
}

/// Lists that say the same have as much room.
proof fn same_room(order: ByteOrder, one: Seq<u8>, other: Seq<u8>, iovs: int, i: int, count: int)
    requires
        i <= count,
        forall|j: int| 0 <= j < count ==> #[trigger] same_buffer(order, one, other, iovs, j),
    ensures
        room_before(order, other, iovs, i) == room_before(order, one, iovs, i),
    decreases i,
{
    if i > 0 {
        same_room(order, one, other, iovs, i - 1, count);
        assert(same_buffer(order, one, other, iovs, i - 1));
    }
}

/// Data is spread buffer by buffer: each takes as much as it has room for and passes the
/// rest on. It fails at the first buffer that is needed and does not lie within the
/// memory, as far as it is needed, and looks at none after the data is at its end.
pub proof fn scattering_goes_on(
    order: ByteOrder,
    memory: Seq<u8>,
    iovs: int,
    i: int,
    count: int,
    data: Seq<u8>,
) -> (next: Seq<u8>)
    requires
        0 <= iovs,
        0 <= i,
    ensures
        i >= count || data.len() == 0 ==> ring::scattered(order, memory, iovs, i, count, data) == (
            memory,
            true,
        ),
        i < count && data.len() > 0 ==> {
            let offset = offset_of(order, memory, iovs, i);
            let len = len_of(order, memory, iovs, i);
            let n = if len < data.len() {
                len
            } else {
                data.len() as int
            };
            if iovs + 16 * i + 16 > memory.len() || offset + n > memory.len() {
                ring::scattered(order, memory, iovs, i, count, data) == (memory, false)
            } else {
                &&& ring::scattered(order, memory, iovs, i, count, data) == ring::scattered(
                    order,
                    next,
                    iovs,
                    i + 1,
                    count,
                    data.skip(n),
                )
                &&& next.len() == memory.len()
                &&& forall|at: int|
                    0 <= at < memory.len() ==> #[trigger] next[at] == if offset <= at < offset + n {
                        data[at - offset]
                    } else {
                        memory[at]
                    }
            }
        },
{
    buffers_in_memory(order, memory, iovs, i);
    let len = len_of(order, memory, iovs, i);
    let n = if len < data.len() {
        len
    } else {
        data.len() as int
    };
    bytes::splice(memory, offset_of(order, memory, iovs, i), data.take(n))
}

/// The byte at `at` of an entry at `entry` that was answered: the status is at 8, up to
/// ninety-six bytes of sense data are from 16 on, and other bytes are those of `stored`.
pub open spec fn answered_byte(stored: Seq<u8>, entry: int, reply: Reply, at: int) -> u8 {
    if at == entry + 8 {
        reply.status
    } else if entry + 16 <= at < entry + 16 + sense_room(reply) {
        reply.sense[at - entry - 16]
    } else {
        stored[at]
    }
}

/// How many bytes of sense data an entry takes.
pub open spec fn sense_room(reply: Reply) -> int {
    if reply.sense.len() < 96 {
        reply.sense.len() as int
    } else {
        96
    }
}

/// An answer with the status of success spreads its payload over the buffers from 48 on,
/// and any other none; then the status and the sense data are put into the entry. What
/// comes before the first part that does not lie within the memory stays.
pub proof fn answers_in_memory(
    order: ByteOrder,
    memory: Seq<u8>,
    entry: int,
    count: int,
    reply: Reply,
)
    requires
        0 <= entry,
    ensures
        ({
            let (stored, reached) = if reply.status == 0 {
                ring::scattered(order, memory, entry + 48, 0, count, reply.data)
            } else {
                (memory, true)
            };
            let (updated, ok) = ring::completed(order, memory, entry, count, reply);
            &&& updated.len() == memory.len()
            &&& ok <==> reached && entry + 8 < memory.len() && entry + 16 + sense_room(reply)
                <= memory.len()
            &&& ok ==> forall|at: int|
                0 <= at < memory.len() ==> #[trigger] updated[at] == answered_byte(
                    stored,
                    entry,
                    reply,
                    at,
                )
            &&& !reached || entry + 8 >= memory.len() ==> updated == stored
            &&& reached && !ok && entry + 8 < memory.len() ==> forall|at: int|
                0 <= at < memory.len() ==> #[trigger] updated[at] == if at == entry + 8 {
                    reply.status
                } else {
                    stored[at]
                }
        }),
{
    ring::scattered_keeps_the_size(order, memory, entry + 48, 0, count, reply.data);
}

/// Whether `data` is what the `count` buffers of the list at `iovs` hold.
pub open spec fn is_held(
    order: ByteOrder,
    memory: Seq<u8>,
    iovs: int,
    count: int,
    data: Seq<u8>,
) -> bool {
    &&& data.len() == room_before(order, memory, iovs, count)
    &&& forall|i: int, p: int|
        0 <= i < count && 0 <= p < len_of(order, memory, iovs, i) ==> #[trigger] byte_is_gathered(
            order,
            memory,
            iovs,
            data,
            i,
            p,
        )
}

/// Whether the buffers of the list at `iovs` can be read: they and the list lie within the
/// memory.
pub open spec fn is_readable(order: ByteOrder, memory: Seq<u8>, iovs: int, count: int) -> bool {
    &&& count > 0 ==> iovs + 16 * count <= memory.len()
    &&& forall|i: int| 0 <= i < count ==> #[trigger] ends_within(order, memory, iovs, i)
}

/// Whether a command with this opcode comes with data.
pub open spec fn comes_with_data(opcode: u8) -> bool {
    ||| opcode == 0x0a
    ||| opcode == 0x15
    ||| opcode == 0x2a
    ||| opcode == 0x41
    ||| opcode == 0x55
    ||| opcode == 0x8a
    ||| opcode == 0x93
    ||| opcode == 0xaa
}

/// The tail behind an entry of `len` bytes at `tail`.
pub open spec fn tail_behind(
    found: Ring,
    tail: u32,
    len: int,
    result: Result<u32, RingError>,
) -> bool {
    if found.cmdr_size == 0 {
        result == Err::<u32, RingError>(RingError::EmptyRing)
    } else {
        result matches Ok(new_tail) && new_tail == (tail + len) % found.cmdr_size as int
    }
}

/// What serving the entry at `tail` does, from the bytes of its header: the low three bits
/// of its first four bytes are the opcode, the others the length. A padding entry sends
/// the tail to the start; one that is no command moves it by its length, but at least by
/// eight bytes. A command is the sixteen bytes at the offset in the eight bytes at 24; it
/// has as many buffers as the four bytes at 8 say, and they are read where its opcode
/// comes with data.
pub proof fn entries_in_memory<D: BlockDevice>(
    found: Ring,
    pre: TcmuDevice<D>,
    memory: Seq<u8>,
    tail: u32,
    post: TcmuDevice<D>,
    updated: Seq<u8>,
    result: Result<u32, RingError>,
)
    requires
        found.served(pre, memory, tail, post, updated, result),
    ensures
        ({
            let entry = found.cmdr_off + tail;
            let first = raw_u32(found.order, memory, entry);
            let opcode = first % 8;
            let len = first - opcode;
            let count = raw_u32(found.order, memory, entry + 8);
            let at = raw_u64(found.order, memory, entry + 24);
            let cdb = memory.subrange(at, at + 16);
            let unchanged = post == pre && updated == memory;
            let outside = result == Err::<u32, RingError>(RingError::OutOfBounds);
            if entry + 4 > memory.len() {
                unchanged && outside
            } else if opcode == 0 {
                unchanged && result == Ok::<u32, RingError>(0)
            } else if opcode != 1 || len == 0 {
                unchanged && tail_behind(
                    found,
                    tail,
                    if len < 8 {
                        8
                    } else {
                        len
                    },
                    result,
                )
            } else if entry + 32 > memory.len() || at + 16 > memory.len() {
                unchanged && outside
            } else if comes_with_data(cdb[0]) && !is_readable(
                found.order,
                memory,
                entry + 48,
                count,
            ) {
                unchanged && outside
            } else {
                exists|data_out: Seq<u8>, reply: Reply|
                    {
                        let (stored, ok) = ring::completed(
                            found.order,
                            memory,
                            entry,
                            count,
                            reply,
                        );
                        &&& #[trigger] device::executed(pre, cdb, data_out, post, reply)
                        &&& if comes_with_data(cdb[0]) {
                            is_held(found.order, memory, entry + 48, count, data_out)
                        } else {
                            data_out.len() == 0
                        }
                        &&& updated == stored
                        &&& ok ==> tail_behind(found, tail, len, result)
                        &&& !ok ==> outside
                    }
            }
        }),
{
    let entry = found.cmdr_off + tail;
    numbers_in_memory(found.order, memory, entry);
    numbers_in_memory(found.order, memory, entry + 8);
    numbers_in_memory(found.order, memory, entry + 24);
    let first = raw_u32(found.order, memory, entry);
    let len = first - first % 8;
    let count = raw_u32(found.order, memory, entry + 8);
    let at = raw_u64(found.order, memory, entry + 24);
    let cdb = memory.subrange(at, at + 16);
    if entry + 32 <= memory.len() && first % 8 == 1 && len > 0 && at + 16 <= memory.len() {
        wire_laws::data_directions(cdb[0]);
        buffers_that_are_gathered(found.order, memory, entry + 48, count);
        gathered_bytes(found.order, memory, entry + 48, count);
        if !comes_with_data(cdb[0]) || is_readable(found.order, memory, entry + 48, count) {
            let fetched = found.fetched(memory, tail)->Some_0;
            assert(fetched.cdb == cdb);
            assert(found.command_served(pre, memory, tail, len, fetched, post, updated, result));
            let reply = choose|reply: Reply|
                {
                    &&& #[trigger] device::executed(
                        pre,
                        fetched.cdb,
                        fetched.data_out,
                        post,
                        reply,
                    )
                    &&& (updated, result) == ({
                        let (stored, ok) = ring::completed(
                            found.order,
                            memory,
                            found.entry(tail),
                            fetched.count,
                            reply,
                        );
                        (
                            stored,
                            if ok {
                                found.after(tail, len)
                            } else {
                                Err(RingError::OutOfBounds)
                            },
                        )
                    })
                };
            assert(device::executed(pre, cdb, fetched.data_out, post, reply));
        }
    }
}

/// An entry is a command where the low three bits of its first four bytes are one and the
/// others are not all zero; what it holds is where its header says.
pub proof fn commands_in_memory(found: Ring, memory: Seq<u8>, tail: u32)
    ensures
        ({
            let entry = found.cmdr_off + tail;
            let first = raw_u32(found.order, memory, entry);
            let count = raw_u32(found.order, memory, entry + 8);
            let at = raw_u64(found.order, memory, entry + 24);
            let cdb = memory.subrange(at, at + 16);
            let with_data = comes_with_data(cdb[0]);
            &&& found.is_command(memory, tail) <==> entry + 4 <= memory.len() && first % 8 == 1
                && first >= 8
            &&& found.fetched(memory, tail) is Some <==> entry + 32 <= memory.len() && at + 16
                <= memory.len() && (with_data ==> is_readable(
                found.order,
                memory,
                entry + 48,
                count,
            ))
            &&& found.fetched(memory, tail) matches Some(fetched) ==> {
                &&& fetched.count == count
                &&& fetched.cdb == cdb
                &&& with_data ==> is_held(
                    found.order,
                    memory,
                    entry + 48,
                    count,
                    fetched.data_out,
                )
                &&& !with_data ==> fetched.data_out.len() == 0
            }
        }),
{
    let entry = found.cmdr_off + tail;
    numbers_in_memory(found.order, memory, entry);
    numbers_in_memory(found.order, memory, entry + 8);
    numbers_in_memory(found.order, memory, entry + 24);
    let count = raw_u32(found.order, memory, entry + 8);
    let at = raw_u64(found.order, memory, entry + 24);
    if entry + 32 <= memory.len() && at + 16 <= memory.len() {
        let cdb = memory.subrange(at, at + 16);
        wire_laws::data_directions(cdb[0]);
        buffers_that_are_gathered(found.order, memory, entry + 48, count);
        gathered_bytes(found.order, memory, entry + 48, count);
    }
}

} // verus!
