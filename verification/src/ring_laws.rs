//! What holds of serving the command ring, over all entries.

use crate::block_device::BlockDevice;
use crate::bytes;
use crate::command;
use crate::command::Request;
use crate::device;
use crate::device::TcmuDevice;
use crate::laws;
use crate::response;
use crate::response::Reply;
use crate::ring;
use crate::ring::{
    ByteOrder, Fetched, Ring, RingError, ENTRY_IOVS, ENTRY_RSP_SENSE_BUF, ENTRY_RSP_STATUS,
    TCMU_SENSE_BUFFERSIZE,
};
use crate::scsi::SAM_STAT_GOOD;
use crate::semantics;
use vstd::prelude::*;

verus! {

/// Whether `offset` and `len` are those of buffer `i` of the list at `iovs`, and the
/// buffer lies within the memory and clear of the list, which has `count` buffers.
pub open spec fn buffer_is_clear(
    order: ByteOrder,
    memory: Seq<u8>,
    iovs: int,
    count: int,
    i: int,
) -> bool {
    match ring::buffer_at(order, memory, iovs, i) {
        Some((offset, len)) => {
            &&& offset + len <= memory.len()
            &&& offset + len <= iovs || iovs + 16 * count <= offset
        },
        None => false,
    }
}

/// Whether all `count` buffers of the list at `iovs` lie within the memory and clear of
/// the list.
pub open spec fn buffers_are_clear(
    order: ByteOrder,
    memory: Seq<u8>,
    iovs: int,
    count: int,
) -> bool {
    &&& 0 <= iovs
    &&& forall|i: int|
        0 <= i < count ==> #[trigger] buffer_is_clear(order, memory, iovs, count, i)
}

/// Whether position `at` lies in buffer `i` of the list at `iovs`.
pub open spec fn in_buffer(
    order: ByteOrder,
    memory: Seq<u8>,
    iovs: int,
    i: int,
    at: int,
) -> bool {
    match ring::buffer_at(order, memory, iovs, i) {
        Some((offset, len)) => offset <= at < offset + len,
        None => false,
    }
}

/// Whether no two of the `count` buffers of the list at `iovs` share a position.
pub open spec fn buffers_are_disjoint(
    order: ByteOrder,
    memory: Seq<u8>,
    iovs: int,
    count: int,
) -> bool {
    forall|i: int, j: int, at: int|
        0 <= i < j < count && #[trigger] in_buffer(order, memory, iovs, i, at)
            ==> !#[trigger] in_buffer(order, memory, iovs, j, at)
}

/// What the buffers of the list at `iovs` hold from buffer `i` on, up to buffer
/// `count`.
pub open spec fn held_from(
    order: ByteOrder,
    memory: Seq<u8>,
    iovs: int,
    i: int,
    count: int,
) -> Seq<u8>
    decreases count - i,
{
    if i >= count {
        Seq::empty()
    } else {
        match ring::buffer_at(order, memory, iovs, i) {
            Some((offset, len)) => memory.subrange(offset, offset + len) + held_from(
                order,
                memory,
                iovs,
                i + 1,
                count,
            ),
            None => Seq::empty(),
        }
    }
}

/// Whether two memories have the same list of `count` buffers at `iovs`.
spec fn same_list(one: Seq<u8>, other: Seq<u8>, iovs: int, count: int) -> bool {
    &&& one.len() == other.len()
    &&& forall|at: int| iovs <= at < iovs + 16 * count && at < one.len() ==> one[at] == other[at]
}

/// Memories with the same list have the same buffers.
proof fn same_list_same_buffers(
    order: ByteOrder,
    one: Seq<u8>,
    other: Seq<u8>,
    iovs: int,
    count: int,
    i: int,
)
    requires
        same_list(one, other, iovs, count),
        0 <= iovs,
        0 <= i < count,
    ensures
        ring::buffer_at(order, one, iovs, i) == ring::buffer_at(order, other, iovs, i),
{
    let at = iovs + 16 * i;
    if at + 16 <= one.len() {
        assert(one.subrange(at, at + 8) =~= other.subrange(at, at + 8));
        assert(one.subrange(at + 8, at + 16) =~= other.subrange(at + 8, at + 16));
    } else if at + 8 <= one.len() {
        assert(one.subrange(at, at + 8) =~= other.subrange(at, at + 8));
    }
}

/// Spreading data over buffers that lie clear of their list reaches every byte that it
/// has to, and changes no byte outside the buffers.
pub proof fn scattered_stays_in_the_buffers(
    order: ByteOrder,
    memory: Seq<u8>,
    iovs: int,
    i: int,
    count: int,
    data: Seq<u8>,
)
    requires
        0 <= i,
        buffers_are_clear(order, memory, iovs, count),
    ensures
        ({
            let (updated, ok) = ring::scattered(order, memory, iovs, i, count, data);
            &&& ok
            &&& updated.len() == memory.len()
            &&& forall|at: int|
                0 <= at < memory.len() && (forall|j: int|
                    i <= j < count ==> !#[trigger] in_buffer(order, memory, iovs, j, at))
                    ==> #[trigger] updated[at] == memory[at]
            &&& forall|j: int|
                0 <= j < count ==> #[trigger] ring::buffer_at(order, updated, iovs, j)
                    == ring::buffer_at(order, memory, iovs, j)
        }),
    decreases count - i,
{
    if i < count && data.len() > 0 {
        assert(buffer_is_clear(order, memory, iovs, count, i));
        let (offset, len) = ring::buffer_at(order, memory, iovs, i)->Some_0;
        let n = if len < data.len() {
            len
        } else {
            data.len() as int
        };
        let next = bytes::splice(memory, offset, data.take(n));
        assert forall|j: int| 0 <= j < count implies #[trigger] buffer_is_clear(
            order,
            next,
            iovs,
            count,
            j,
        ) by {
            assert(buffer_is_clear(order, memory, iovs, count, j));
            same_list_same_buffers(order, memory, next, iovs, count, j);
        }
        scattered_stays_in_the_buffers(order, next, iovs, i + 1, count, data.skip(n));
        let updated = ring::scattered(order, next, iovs, i + 1, count, data.skip(n)).0;
        assert forall|at: int|
            0 <= at < memory.len() && (forall|j: int|
                i <= j < count ==> !#[trigger] in_buffer(
                    order,
                    memory,
                    iovs,
                    j,
                    at,
                )) implies #[trigger] updated[at] == memory[at] by {
            assert(!in_buffer(order, memory, iovs, i, at));
            assert forall|j: int| i + 1 <= j < count implies !#[trigger] in_buffer(
                order,
                next,
                iovs,
                j,
                at,
            ) by {
                same_list_same_buffers(order, memory, next, iovs, count, j);
                assert(!in_buffer(order, memory, iovs, j, at));
            }
        }
        assert forall|j: int| 0 <= j < count implies #[trigger] ring::buffer_at(
            order,
            updated,
            iovs,
            j,
        ) == ring::buffer_at(order, memory, iovs, j) by {
            same_list_same_buffers(order, memory, next, iovs, count, j);
        }
    }
}

/// Storing a piece in a buffer that lies clear of the list leaves all buffers where
/// they are.
proof fn stored_piece_keeps_the_buffers(
    order: ByteOrder,
    memory: Seq<u8>,
    iovs: int,
    count: int,
    i: int,
    piece: Seq<u8>,
)
    requires
        0 <= i < count,
        buffers_are_clear(order, memory, iovs, count),
        buffers_are_disjoint(order, memory, iovs, count),
        ring::buffer_at(order, memory, iovs, i) matches Some((offset, len)) && piece.len() <= len,
    ensures
        ({
            let next = bytes::splice(
                memory,
                ring::buffer_at(order, memory, iovs, i)->Some_0.0,
                piece,
            );
            &&& buffers_are_clear(order, next, iovs, count)
            &&& buffers_are_disjoint(order, next, iovs, count)
            &&& forall|j: int|
                0 <= j < count ==> #[trigger] ring::buffer_at(order, next, iovs, j)
                    == ring::buffer_at(order, memory, iovs, j)
        }),
{
    assert(buffer_is_clear(order, memory, iovs, count, i));
    let offset = ring::buffer_at(order, memory, iovs, i)->Some_0.0;
    let next = bytes::splice(memory, offset, piece);
    assert forall|j: int| 0 <= j < count implies #[trigger] ring::buffer_at(order, next, iovs, j)
        == ring::buffer_at(order, memory, iovs, j) by {
        same_list_same_buffers(order, memory, next, iovs, count, j);
    }
    assert forall|j: int| 0 <= j < count implies #[trigger] buffer_is_clear(
        order,
        next,
        iovs,
        count,
        j,
    ) by {
        assert(buffer_is_clear(order, memory, iovs, count, j));
        same_list_same_buffers(order, memory, next, iovs, count, j);
    }
    assert forall|k: int, j: int, at: int|
        0 <= k < j < count && #[trigger] in_buffer(
            order,
            next,
            iovs,
            k,
            at,
        ) implies !#[trigger] in_buffer(order, next, iovs, j, at) by {
        same_list_same_buffers(order, memory, next, iovs, count, k);
        same_list_same_buffers(order, memory, next, iovs, count, j);
        assert(in_buffer(order, memory, iovs, k, at));
        assert(!in_buffer(order, memory, iovs, j, at));
    }
}

/// What was stored in a buffer stays there while later buffers are filled.
proof fn stored_piece_stays(
    order: ByteOrder,
    memory: Seq<u8>,
    iovs: int,
    i: int,
    count: int,
    data: Seq<u8>,
)
    requires
        0 <= i < count,
        buffers_are_clear(order, memory, iovs, count),
        buffers_are_disjoint(order, memory, iovs, count),
    ensures
        ring::buffer_at(order, memory, iovs, i) matches Some((offset, len)) && {
            &&& offset + len <= memory.len()
            &&& ring::scattered(order, memory, iovs, i + 1, count, data).0.subrange(
                offset,
                offset + len,
            ) == memory.subrange(offset, offset + len)
        },
{
    assert(buffer_is_clear(order, memory, iovs, count, i));
    let (offset, len) = ring::buffer_at(order, memory, iovs, i)->Some_0;
    let updated = ring::scattered(order, memory, iovs, i + 1, count, data).0;
    scattered_stays_in_the_buffers(order, memory, iovs, i + 1, count, data);
    assert forall|at: int| offset <= at < offset + len implies #[trigger] updated[at]
        == memory[at] by {
        assert(in_buffer(order, memory, iovs, i, at));
        assert forall|j: int| i + 1 <= j < count implies !#[trigger] in_buffer(
            order,
            memory,
            iovs,
            j,
            at,
        ) by {}
    }
    assert(updated.subrange(offset, offset + len) =~= memory.subrange(offset, offset + len));
}

/// `held` with `data` put over its beginning; what it has no room for is dropped.
pub open spec fn overlaid(held: Seq<u8>, data: Seq<u8>) -> Seq<u8> {
    Seq::new(
        held.len(),
        |k: int|
            if k < data.len() {
                data[k]
            } else {
                held[k]
            },
    )
}

/// Data is put over two parts by putting what fits over the first, and the rest over
/// the second.
proof fn overlaid_in_two_parts(first: Seq<u8>, second: Seq<u8>, data: Seq<u8>, n: int)
    requires
        n == if first.len() < data.len() {
            first.len()
        } else {
            data.len()
        },
    ensures
        overlaid(first + second, data) == overlaid(first, data.take(n)) + overlaid(
            second,
            data.skip(n),
        ),
{
    assert(overlaid(first + second, data) =~= overlaid(first, data.take(n)) + overlaid(
        second,
        data.skip(n),
    ));
}

/// Memories that agree in the buffers from buffer `i` on hold the same there.
proof fn held_depends_on_the_buffers(
    order: ByteOrder,
    one: Seq<u8>,
    other: Seq<u8>,
    iovs: int,
    i: int,
    count: int,
)
    requires
        0 <= i,
        one.len() == other.len(),
        buffers_are_clear(order, one, iovs, count),
        forall|j: int|
            0 <= j < count ==> #[trigger] ring::buffer_at(order, other, iovs, j)
                == ring::buffer_at(order, one, iovs, j),
        forall|j: int, at: int|
            i <= j < count && #[trigger] in_buffer(order, one, iovs, j, at) ==> one[at]
                == other[at],
    ensures
        held_from(order, one, iovs, i, count) == held_from(order, other, iovs, i, count),
    decreases count - i,
{
    if i < count {
        assert(buffer_is_clear(order, one, iovs, count, i));
        held_depends_on_the_buffers(order, one, other, iovs, i + 1, count);
        let (offset, len) = ring::buffer_at(order, one, iovs, i)->Some_0;
        assert(ring::buffer_at(order, other, iovs, i) == Some((offset, len)));
        assert forall|at: int| offset <= at < offset + len implies one[at]
            == #[trigger] other[at] by {
            assert(in_buffer(order, one, iovs, i, at));
        }
        assert(one.subrange(offset, offset + len) =~= other.subrange(offset, offset + len));
    }
}

/// Data that is spread over disjoint buffers, from buffer `i` on, is put over what they
/// held.
proof fn scattered_data_is_held(
    order: ByteOrder,
    memory: Seq<u8>,
    iovs: int,
    i: int,
    count: int,
    data: Seq<u8>,
)
    requires
        0 <= i,
        buffers_are_clear(order, memory, iovs, count),
        buffers_are_disjoint(order, memory, iovs, count),
    ensures
        held_from(
            order,
            ring::scattered(order, memory, iovs, i, count, data).0,
            iovs,
            i,
            count,
        ) == overlaid(held_from(order, memory, iovs, i, count), data),
    decreases count - i,
{
    let updated = ring::scattered(order, memory, iovs, i, count, data).0;
    scattered_stays_in_the_buffers(order, memory, iovs, i, count, data);
    if i < count && data.len() > 0 {
        assert(buffer_is_clear(order, memory, iovs, count, i));
        let (offset, len) = ring::buffer_at(order, memory, iovs, i)->Some_0;
        let n = if len < data.len() {
            len
        } else {
            data.len() as int
        };
        let next = bytes::splice(memory, offset, data.take(n));
        let rest = data.skip(n);
        stored_piece_keeps_the_buffers(order, memory, iovs, count, i, data.take(n));
        assert forall|j: int, at: int|
            i + 1 <= j < count && #[trigger] in_buffer(
                order,
                memory,
                iovs,
                j,
                at,
            ) implies memory[at] == next[at] by {
            assert(buffer_is_clear(order, memory, iovs, count, j));
            if offset <= at < offset + len {
                assert(in_buffer(order, memory, iovs, i, at));
            }
        }
        held_depends_on_the_buffers(order, memory, next, iovs, i + 1, count);
        scattered_data_is_held(order, next, iovs, i + 1, count, rest);
        stored_piece_stays(order, next, iovs, i, count, rest);
        let piece = memory.subrange(offset, offset + len);
        assert(next.subrange(offset, offset + len) =~= overlaid(piece, data.take(n)));
        overlaid_in_two_parts(
            piece,
            held_from(order, memory, iovs, i + 1, count),
            data,
            n,
        );
    } else {
        assert(overlaid(held_from(order, memory, iovs, i, count), data) =~= held_from(
            order,
            memory,
            iovs,
            i,
            count,
        ));
    }
}

/// Gathering the buffers one by one from the first gives what they hold.
proof fn gathered_is_held(order: ByteOrder, memory: Seq<u8>, iovs: int, i: int, count: int)
    requires
        0 <= i <= count,
        buffers_are_clear(order, memory, iovs, count),
    ensures
        ring::gathered(order, memory, iovs, i) is Some,
        ring::gathered(order, memory, iovs, count) == Some(
            ring::gathered(order, memory, iovs, i)->Some_0 + held_from(
                order,
                memory,
                iovs,
                i,
                count,
            ),
        ),
    decreases count - i,
{
    gathered_is_some(order, memory, iovs, i, count);
    let before = ring::gathered(order, memory, iovs, i)->Some_0;
    if i < count {
        gathered_is_held(order, memory, iovs, i + 1, count);
        let (offset, len) = ring::buffer_at(order, memory, iovs, i)->Some_0;
        assert(before + held_from(order, memory, iovs, i, count) =~= (before + memory.subrange(
            offset,
            offset + len,
        )) + held_from(order, memory, iovs, i + 1, count));
    } else {
        assert(before + held_from(order, memory, iovs, i, count) =~= before);
    }
}

/// Buffers that lie within the memory can be gathered.
proof fn gathered_is_some(order: ByteOrder, memory: Seq<u8>, iovs: int, i: int, count: int)
    requires
        0 <= i <= count,
        buffers_are_clear(order, memory, iovs, count),
    ensures
        ring::gathered(order, memory, iovs, i) is Some,
    decreases i,
{
    if i > 0 {
        gathered_is_some(order, memory, iovs, i - 1, count);
        assert(buffer_is_clear(order, memory, iovs, count, i - 1));
    }
}

/// What is spread over disjoint buffers is gathered from them again, as far as they
/// have room for it, and what they held behind it stays.
pub proof fn gathering_returns_what_was_scattered(
    order: ByteOrder,
    memory: Seq<u8>,
    iovs: int,
    count: int,
    data: Seq<u8>,
)
    requires
        0 <= count,
        buffers_are_clear(order, memory, iovs, count),
        buffers_are_disjoint(order, memory, iovs, count),
    ensures
        ({
            let (updated, ok) = ring::scattered(order, memory, iovs, 0, count, data);
            &&& ok
            &&& ring::gathered(order, memory, iovs, count) matches Some(held)
                && ring::gathered(order, updated, iovs, count) == Some(overlaid(held, data))
        }),
{
    let updated = ring::scattered(order, memory, iovs, 0, count, data).0;
    scattered_stays_in_the_buffers(order, memory, iovs, 0, count, data);
    gathered_is_held(order, memory, iovs, 0, count);
    let none = Seq::<u8>::empty();
    assert(none + held_from(order, memory, iovs, 0, count) =~= held_from(
        order,
        memory,
        iovs,
        0,
        count,
    ));
    assert forall|j: int| 0 <= j < count implies #[trigger] buffer_is_clear(
        order,
        updated,
        iovs,
        count,
        j,
    ) by {
        assert(buffer_is_clear(order, memory, iovs, count, j));
    }
    scattered_data_is_held(order, memory, iovs, 0, count, data);
    gathered_is_held(order, updated, iovs, 0, count);
    assert(none + held_from(order, updated, iovs, 0, count) =~= held_from(
        order,
        updated,
        iovs,
        0,
        count,
    ));
}

/// Memories that agree on the list and in the buffers give the same when gathered.
proof fn gathered_depends_on_the_buffers(
    order: ByteOrder,
    one: Seq<u8>,
    other: Seq<u8>,
    iovs: int,
    i: int,
    count: int,
)
    requires
        0 <= i <= count,
        same_list(one, other, iovs, count),
        buffers_are_clear(order, one, iovs, count),
        forall|j: int, at: int|
            0 <= j < count && #[trigger] in_buffer(order, one, iovs, j, at) ==> one[at]
                == other[at],
    ensures
        ring::gathered(order, one, iovs, i) == ring::gathered(order, other, iovs, i),
    decreases i,
{
    if i > 0 {
        gathered_depends_on_the_buffers(order, one, other, iovs, i - 1, count);
        assert(buffer_is_clear(order, one, iovs, count, i - 1));
        same_list_same_buffers(order, one, other, iovs, count, i - 1);
        let (offset, len) = ring::buffer_at(order, one, iovs, i - 1)->Some_0;
        assert forall|at: int| offset <= at < offset + len implies one[at] == #[trigger] other[at] by {
            assert(in_buffer(order, one, iovs, i - 1, at));
        }
        assert(one.subrange(offset, offset + len) =~= other.subrange(offset, offset + len));
    }
}

/// A successful answer puts its payload into the buffers of the entry, one after the
/// other and as far as they have room for it, where they are disjoint and leave the
/// status alone, and puts its status into the entry.
pub proof fn answer_is_put_in_its_place(
    order: ByteOrder,
    memory: Seq<u8>,
    entry: int,
    count: int,
    data: Seq<u8>,
)
    requires
        0 <= entry,
        entry + ENTRY_RSP_SENSE_BUF <= memory.len(),
        0 <= count,
        buffers_are_clear(order, memory, entry + ENTRY_IOVS, count),
        buffers_are_disjoint(order, memory, entry + ENTRY_IOVS, count),
        forall|j: int|
            0 <= j < count ==> !#[trigger] in_buffer(
                order,
                memory,
                entry + ENTRY_IOVS,
                j,
                entry + ENTRY_RSP_STATUS,
            ),
    ensures
        ({
            let (updated, ok) = ring::completed(
                order,
                memory,
                entry,
                count,
                response::success(data),
            );
            &&& ok
            &&& updated[entry + ENTRY_RSP_STATUS] == SAM_STAT_GOOD
            &&& ring::gathered(order, memory, entry + ENTRY_IOVS, count) matches Some(held)
                && ring::gathered(order, updated, entry + ENTRY_IOVS, count) == Some(
                overlaid(held, data),
            )
        }),
{
    let iovs = entry + ENTRY_IOVS;
    let stored = ring::scattered(order, memory, iovs, 0, count, data).0;
    let updated = ring::completed(order, memory, entry, count, response::success(data)).0;
    gathering_returns_what_was_scattered(order, memory, iovs, count, data);
    scattered_stays_in_the_buffers(order, memory, iovs, 0, count, data);
    assert forall|j: int| 0 <= j < count implies #[trigger] buffer_is_clear(
        order,
        stored,
        iovs,
        count,
        j,
    ) by {
        assert(buffer_is_clear(order, memory, iovs, count, j));
    }
    assert forall|j: int, at: int|
        0 <= j < count && #[trigger] in_buffer(order, stored, iovs, j, at) implies stored[at]
        == updated[at] by {
        assert(buffer_is_clear(order, stored, iovs, count, j));
        assert(!in_buffer(order, memory, iovs, j, entry + ENTRY_RSP_STATUS));
    }
    gathered_depends_on_the_buffers(order, stored, updated, iovs, count, count);
}

/// A refusal puts its status and its sense data into the entry, where they fit, and
/// changes no other byte.
pub proof fn refusal_is_put_in_its_place(
    order: ByteOrder,
    memory: Seq<u8>,
    entry: int,
    count: int,
    reply: Reply,
)
    requires
        0 <= entry,
        reply.status != SAM_STAT_GOOD,
        reply.sense.len() <= TCMU_SENSE_BUFFERSIZE,
        entry + ENTRY_RSP_SENSE_BUF + reply.sense.len() <= memory.len(),
    ensures
        ({
            let (updated, ok) = ring::completed(order, memory, entry, count, reply);
            let sense_at = entry + ENTRY_RSP_SENSE_BUF;
            let sense_end = sense_at + reply.sense.len();
            &&& ok
            &&& updated.len() == memory.len()
            &&& updated[entry + ENTRY_RSP_STATUS] == reply.status
            &&& updated.subrange(sense_at, sense_end) == reply.sense
            &&& forall|at: int|
                0 <= at < memory.len() && at != entry + ENTRY_RSP_STATUS && !(sense_at <= at
                    < sense_end) ==> #[trigger] updated[at] == memory[at]
        }),
{
    let updated = ring::completed(order, memory, entry, count, reply).0;
    let sense_at = entry + ENTRY_RSP_SENSE_BUF;
    assert(updated.subrange(sense_at, sense_at + reply.sense.len()) =~= reply.sense);
}

/// Storing an answer changes no byte but those of the buffers, the status and the
/// sense data of its entry.
pub proof fn answer_stays_in_its_place(
    order: ByteOrder,
    memory: Seq<u8>,
    entry: int,
    count: int,
    reply: Reply,
    at: int,
)
    requires
        0 <= entry,
        buffers_are_clear(order, memory, entry + ENTRY_IOVS, count),
        0 <= at < memory.len(),
        forall|j: int|
            0 <= j < count ==> !#[trigger] in_buffer(order, memory, entry + ENTRY_IOVS, j, at),
        at != entry + ENTRY_RSP_STATUS,
        at < entry + ENTRY_RSP_SENSE_BUF || entry + ENTRY_RSP_SENSE_BUF + 96 <= at,
    ensures
        ring::completed(order, memory, entry, count, reply).0[at] == memory[at],
{
    scattered_stays_in_the_buffers(order, memory, entry + ENTRY_IOVS, 0, count, reply.data);
}

/// Whether the entry at `tail` is the command `fetched`, and serving it may turn `pre`
/// into `post` and `memory` into `updated`, with the status that tells of success.
pub open spec fn command_succeeded<D: BlockDevice>(
    found: Ring,
    pre: TcmuDevice<D>,
    memory: Seq<u8>,
    tail: u32,
    fetched: Fetched,
    post: TcmuDevice<D>,
    updated: Seq<u8>,
    new_tail: u32,
) -> bool {
    &&& found.is_command(memory, tail)
    &&& found.fetched(memory, tail) == Some(fetched)
    &&& found.served(pre, memory, tail, post, updated, Ok(new_tail))
    &&& updated[found.entry(tail) + ENTRY_RSP_STATUS] == SAM_STAT_GOOD
}

/// A command whose entry tells of success was answered by success.
proof fn success_was_answered<D: BlockDevice>(
    found: Ring,
    pre: TcmuDevice<D>,
    memory: Seq<u8>,
    tail: u32,
    fetched: Fetched,
    post: TcmuDevice<D>,
    updated: Seq<u8>,
    new_tail: u32,
) -> (reply: Reply)
    requires
        command_succeeded(found, pre, memory, tail, fetched, post, updated, new_tail),
    ensures
        device::executed(pre, fetched.cdb, fetched.data_out, post, reply),
        reply == response::success(reply.data),
        ring::completed(found.order, memory, found.entry(tail), fetched.count, reply) == (
            updated,
            true,
        ),
{
    let entry = found.entry(tail);
    let len_op = ring::word(found.order, memory, entry, 4)->Some_0;
    let len = len_op - len_op % 8;
    let result = Ok::<u32, RingError>(new_tail);
    assert(found.command_served(pre, memory, tail, len, fetched, post, updated, result));
    let reply = choose|reply: Reply|
        {
            &&& #[trigger] device::executed(pre, fetched.cdb, fetched.data_out, post, reply)
            &&& (updated, result) == ({
                let (stored, ok) = ring::completed(
                    found.order,
                    memory,
                    entry,
                    fetched.count,
                    reply,
                );
                (
                    stored,
                    if ok {
                        found.after(tail, len)
                    } else {
                        Err(RingError::OutOfBounds)
                    },
                )
            })
        };
    laws::reply_is_success_or_sense(
        pre.identity(),
        pre.backing(),
        fetched.cdb,
        fetched.data_out,
        post.backing(),
        reply,
    );
    ring::scattered_keeps_the_size(
        found.order,
        memory,
        entry + ENTRY_IOVS,
        0,
        fetched.count,
        reply.data,
    );
    assert(updated[entry + ENTRY_RSP_STATUS] == reply.status);
    assert(reply.sense =~= Seq::empty());
    reply
}

/// What a write that was served from the ring sends, a read of the same blocks that is
/// served from the ring later puts into its buffers, as far as they have room for it,
/// for a device that stores its contents, and buffers of the read that are disjoint and
/// leave their list and the status alone. The memory may change in between.
pub proof fn ring_read_returns_what_ring_write_sent<D: BlockDevice>(
    contents: spec_fn(D) -> Seq<u8>,
    found: Ring,
    pre: TcmuDevice<D>,
    write_memory: Seq<u8>,
    write_tail: u32,
    write: Fetched,
    mid: TcmuDevice<D>,
    write_updated: Seq<u8>,
    after_write: u32,
    read_memory: Seq<u8>,
    read_tail: u32,
    read: Fetched,
    post: TcmuDevice<D>,
    read_updated: Seq<u8>,
    after_read: u32,
    lba: int,
    blocks: int,
)
    requires
        laws::stores(contents),
        command_succeeded(
            found,
            pre,
            write_memory,
            write_tail,
            write,
            mid,
            write_updated,
            after_write,
        ),
        command::requested(write.cdb) == (Request::Write { lba, blocks }),
        command_succeeded(
            found,
            mid,
            read_memory,
            read_tail,
            read,
            post,
            read_updated,
            after_read,
        ),
        command::requested(read.cdb) == (Request::Read { lba, blocks }),
        buffers_are_clear(
            found.order,
            read_memory,
            found.entry(read_tail) + ENTRY_IOVS,
            read.count,
        ),
        buffers_are_disjoint(
            found.order,
            read_memory,
            found.entry(read_tail) + ENTRY_IOVS,
            read.count,
        ),
        forall|j: int|
            0 <= j < read.count ==> !#[trigger] in_buffer(
                found.order,
                read_memory,
                found.entry(read_tail) + ENTRY_IOVS,
                j,
                found.entry(read_tail) + ENTRY_RSP_STATUS,
            ),
    ensures
        ({
            let sent = ring::gathered(
                found.order,
                write_memory,
                found.entry(write_tail) + ENTRY_IOVS,
                write.count,
            );
            let iovs = found.entry(read_tail) + ENTRY_IOVS;
            &&& sent is Some
            &&& ring::gathered(found.order, read_memory, iovs, read.count) matches Some(held)
                && ring::gathered(found.order, read_updated, iovs, read.count) == Some(
                overlaid(held, sent->Some_0.take(semantics::byte_len(blocks))),
            )
        }),
{
    let written = success_was_answered(
        found,
        pre,
        write_memory,
        write_tail,
        write,
        mid,
        write_updated,
        after_write,
    );
    let answer = success_was_answered(
        found,
        mid,
        read_memory,
        read_tail,
        read,
        post,
        read_updated,
        after_read,
    );
    laws::opcodes_of_reads_and_writes(write.cdb);
    laws::read_returns_what_was_written(
        contents,
        pre.identity(),
        pre.backing(),
        write.cdb,
        write.data_out,
        mid.backing(),
        written,
        read.cdb,
        read.data_out,
        post.backing(),
        answer,
        lba,
        blocks,
    );
    answer_is_put_in_its_place(
        found.order,
        read_memory,
        found.entry(read_tail),
        read.count,
        answer.data,
    );
}

/// Serving an entry keeps the size of the memory, and a new tail lies within the ring.
pub proof fn new_tail_lies_in_the_ring<D: BlockDevice>(
    found: Ring,
    pre: TcmuDevice<D>,
    memory: Seq<u8>,
    tail: u32,
    post: TcmuDevice<D>,
    updated: Seq<u8>,
    result: Result<u32, RingError>,
)
    requires
        found.served(pre, memory, tail, post, updated, result),
    ensures
        updated.len() == memory.len(),
        result matches Ok(new_tail) ==> new_tail == 0 || new_tail < found.cmdr_size,
{
    assert forall|entry: int, count: int, reply: Reply|
        #[trigger] ring::completed(found.order, memory, entry, count, reply).0.len()
            == memory.len() by {
        ring::scattered_keeps_the_size(
            found.order,
            memory,
            entry + ENTRY_IOVS,
            0,
            count,
            reply.data,
        );
    }
    assert forall|len: int| len >= 0 && found.cmdr_size > 0 implies (#[trigger] found.after(
        tail,
        len,
    ))->Ok_0 < found.cmdr_size by {}
}

/// Serving an entry that is not a command changes nothing.
pub proof fn only_commands_change_anything<D: BlockDevice>(
    found: Ring,
    pre: TcmuDevice<D>,
    memory: Seq<u8>,
    tail: u32,
    post: TcmuDevice<D>,
    updated: Seq<u8>,
    result: Result<u32, RingError>,
)
    requires
        found.served(pre, memory, tail, post, updated, result),
        !found.is_command(memory, tail),
    ensures
        post == pre,
        updated == memory,
{
}

} // verus!
