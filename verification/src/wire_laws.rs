//! What commands do, told from the bytes on the wire: from the bytes of the command and
//! of the data that comes with it to the bytes of the answer and of the device.

use crate::block_device;
use crate::block_device::{BlockDevice, DeviceError};
use crate::bytes;
use crate::command;
use crate::command::{Identity, Request};
use crate::device;
use crate::device::{TcmuDevice, TcmuDeviceConfig};
use crate::laws;
use crate::response;
use crate::response::Reply;
use crate::scsi;
use crate::semantics;
use crate::text;
use crate::text_laws;
use vstd::prelude::*;

verus! {

/// The two bytes at `at`, most significant first.
pub open spec fn u16_at(bytes: Seq<u8>, at: int) -> int {
    bytes[at] as int * 0x100 + bytes[at + 1] as int
}

/// The four bytes at `at`, most significant first.
pub open spec fn u32_at(bytes: Seq<u8>, at: int) -> int {
    bytes[at] as int * 0x100_0000 + bytes[at + 1] as int * 0x1_0000 + bytes[at + 2] as int * 0x100
        + bytes[at + 3] as int
}

/// The eight bytes at `at`, most significant first.
pub open spec fn u64_at(bytes: Seq<u8>, at: int) -> int {
    u32_at(bytes, at) * 0x1_0000_0000 + u32_at(bytes, at + 4)
}

/// Big-endian numbers weigh each byte 256 times as much as the next.
pub proof fn big_endian_numbers(bytes: Seq<u8>, at: int)
    requires
        0 <= at,
    ensures
        at + 1 <= bytes.len() ==> bytes::be_value(bytes.subrange(at, at + 1)) == bytes[at],
        at + 2 <= bytes.len() ==> bytes::be_value(bytes.subrange(at, at + 2)) == u16_at(bytes, at),
        at + 4 <= bytes.len() ==> bytes::be_value(bytes.subrange(at, at + 4)) == u32_at(bytes, at),
        at + 8 <= bytes.len() ==> bytes::be_value(bytes.subrange(at, at + 8)) == u64_at(bytes, at),
{
    reveal_with_fuel(bytes::be_value, 9);
    assert forall|from: int, to: int| at <= from < to <= bytes.len() implies (
    #[trigger] bytes.subrange(from, to)).drop_last() == bytes.subrange(from, to - 1) by {
        assert(bytes.subrange(from, to).drop_last() =~= bytes.subrange(from, to - 1));
    }
}

/// The big-endian form in `len` bytes writes what is left of a number modulo the numbers
/// that fit.
proof fn low_order_digits(n: nat, len: nat)
    ensures
        bytes::be_bytes(n, len).len() == len,
        bytes::byte_range(len) > 0,
        bytes::be_value(bytes::be_bytes(n, len)) == n % bytes::byte_range(len),
    decreases len,
{
    if len > 0 {
        let shorter = (len - 1) as nat;
        low_order_digits(n / 256, shorter);
        assert(bytes::be_bytes(n, len).drop_last() =~= bytes::be_bytes(n / 256, shorter));
        vstd::arithmetic::div_mod::lemma_mod_breakdown(
            n as int,
            256,
            bytes::byte_range(shorter) as int,
        );
    }
}

/// The big-endian form of a number is read back, but for what its bytes cannot hold.
pub proof fn big_endian_forms(n: nat)
    ensures
        bytes::be_bytes(n, 1).len() == 1,
        bytes::be_bytes(n, 1)[0] == n % 0x100,
        bytes::be_bytes(n, 2).len() == 2,
        u16_at(bytes::be_bytes(n, 2), 0) == n % 0x1_0000,
        bytes::be_bytes(n, 4).len() == 4,
        u32_at(bytes::be_bytes(n, 4), 0) == n % 0x1_0000_0000,
        bytes::be_bytes(n, 8).len() == 8,
        u64_at(bytes::be_bytes(n, 8), 0) == n % 0x1_0000_0000_0000_0000,
{
    assert(bytes::byte_range(1) == 0x100 && bytes::byte_range(2) == 0x1_0000
        && bytes::byte_range(4) == 0x1_0000_0000 && bytes::byte_range(8)
        == 0x1_0000_0000_0000_0000) by {
        reveal_with_fuel(bytes::byte_range, 9);
    }
    low_order_digits(n, 1);
    low_order_digits(n, 2);
    low_order_digits(n, 4);
    low_order_digits(n, 8);
    big_endian_numbers(bytes::be_bytes(n, 1), 0);
    big_endian_numbers(bytes::be_bytes(n, 2), 0);
    big_endian_numbers(bytes::be_bytes(n, 4), 0);
    big_endian_numbers(bytes::be_bytes(n, 8), 0);
    assert(bytes::be_bytes(n, 1).subrange(0, 1) =~= bytes::be_bytes(n, 1));
    assert(bytes::be_bytes(n, 2).subrange(0, 2) =~= bytes::be_bytes(n, 2));
    assert(bytes::be_bytes(n, 4).subrange(0, 4) =~= bytes::be_bytes(n, 4));
    assert(bytes::be_bytes(n, 8).subrange(0, 8) =~= bytes::be_bytes(n, 8));
}

/// Whether `reply` tells of success and carries `data`.
pub open spec fn is_good(reply: Reply, data: Seq<u8>) -> bool {
    reply.status == 0 && reply.data == data && reply.sense.len() == 0
}

/// Whether `reply` tells of success and carries as much of `data` as there is room for.
pub open spec fn is_good_up_to(reply: Reply, data: Seq<u8>, room: int) -> bool {
    &&& reply.status == 0
    &&& reply.sense.len() == 0
    &&& reply.data.len() <= room
    &&& reply.data.len() <= data.len()
    &&& reply.data.len() == room || reply.data.len() == data.len()
    &&& forall|i: int| 0 <= i < reply.data.len() ==> reply.data[i] == #[trigger] data[i]
}

/// Whether `reply` is a CHECK CONDITION with this sense key and additional sense code,
/// in eighteen bytes of fixed-format sense data.
pub open spec fn is_refusal(reply: Reply, key: u8, asc: u8) -> bool {
    &&& reply.status == 2
    &&& reply.data.len() == 0
    &&& reply.sense == seq![0x70u8, 0, key, 0, 0, 0, 0, 10, 0, 0, 0, 0, asc, 0, 0, 0, 0, 0]
}

/// The parts that replies are made of.
pub proof fn replies_on_the_wire(data: Seq<u8>, room: int, key: u8, asc: u8, ascq: u8)
    requires
        room >= 0,
    ensures
        is_good(response::success(data), data),
        is_refusal(response::failure(key, asc, 0), key, asc),
        response::failure(key, asc, ascq).status == 2,
        response::failure(key, asc, ascq).data.len() == 0,
        response::failure(key, asc, ascq).sense == response::fixed_sense(key, asc, ascq),
        response::fixed_sense(key, asc, ascq) == seq![
            0x70u8, 0, key, 0, 0, 0, 0, 10, 0, 0, 0, 0, asc, ascq, 0, 0, 0, 0,
        ],
        is_good_up_to(response::success(response::clipped(data, room)), data, room),
        is_refusal(command::invalid_command(), 5, 0x20),
        is_refusal(command::out_of_range(), 5, 0x21),
        is_refusal(command::missing_data(), 5, 0x24),
        is_refusal(command::write_protected(), 7, 0x27),
        is_refusal(command::write_error(), 3, 0x0c),
        is_good(semantics::write_reply(true), Seq::empty()),
        is_refusal(semantics::write_reply(false), 3, 0x0c),
{
    assert(response::fixed_sense(key, asc, ascq) =~= seq![
        0x70u8, 0, key, 0, 0, 0, 0, 10, 0, 0, 0, 0, asc, ascq, 0, 0, 0, 0,
    ]);
    assert forall|k: u8, a: u8| #[trigger] response::fixed_sense(k, a, 0) == seq![
        0x70u8, 0, k, 0, 0, 0, 0, 10, 0, 0, 0, 0, a, 0, 0, 0, 0, 0,
    ] by {
        assert(response::fixed_sense(k, a, 0) =~= seq![
            0x70u8, 0, k, 0, 0, 0, 0, 10, 0, 0, 0, 0, a, 0, 0, 0, 0, 0,
        ]);
    }
}

/// A read that the device answers is answered with its bytes, and one that it fails
/// with LBA OUT OF RANGE.
pub proof fn device_results_on_the_wire(result: Result<Vec<u8>, DeviceError>)
    ensures
        result matches Ok(bytes) ==> is_good(semantics::read_reply(result), bytes@),
        result is Err ==> is_refusal(semantics::read_reply(result), 5, 0x21),
{
    replies_on_the_wire(Seq::empty(), 0, 0, 0, 0);
}

/// How many bytes of a command count: those of its form.
pub open spec fn form_len(opcode: u8) -> int {
    if opcode == 0x08 || opcode == 0x0a || opcode == 0x12 || opcode == 0x1a {
        6
    } else if opcode == 0x03 {
        5
    } else if opcode == 0x25 || opcode == 0x28 || opcode == 0x2a || opcode == 0x41 || opcode
        == 0x5a {
        10
    } else if opcode == 0xa8 || opcode == 0xaa {
        12
    } else if opcode == 0x88 || opcode == 0x8a || opcode == 0x93 || opcode == 0x9e {
        16
    } else {
        1
    }
}

/// Whether a command with this opcode is known.
pub open spec fn is_known(opcode: u8) -> bool {
    ||| opcode == 0x00
    ||| opcode == 0x03
    ||| opcode == 0x08
    ||| opcode == 0x0a
    ||| opcode == 0x12
    ||| opcode == 0x1a
    ||| opcode == 0x25
    ||| opcode == 0x28
    ||| opcode == 0x2a
    ||| opcode == 0x35
    ||| opcode == 0x41
    ||| opcode == 0x5a
    ||| opcode == 0x88
    ||| opcode == 0x8a
    ||| opcode == 0x91
    ||| opcode == 0x93
    ||| opcode == 0x9e
    ||| opcode == 0xa8
    ||| opcode == 0xaa
}

/// Bytes behind those of a command's form do not count.
pub proof fn bytes_behind_a_command_do_not_count<D: BlockDevice>(
    identity: Identity,
    pre: D,
    cdb: Seq<u8>,
    data_out: Seq<u8>,
    post: D,
    reply: Reply,
)
    requires
        cdb.len() > 0,
        cdb.len() >= form_len(cdb[0]),
    ensures
        command::requested(cdb) == command::requested(cdb.take(form_len(cdb[0]))),
        semantics::answers(identity, pre, cdb, data_out, post, reply) <==> semantics::answers(
            identity,
            pre,
            cdb.take(form_len(cdb[0])),
            data_out,
            post,
            reply,
        ),
{
    let form = cdb.take(form_len(cdb[0]));
    assert forall|from: int, to: int| 0 <= from <= to <= form.len() implies #[trigger] cdb.subrange(
        from,
        to,
    ) == form.subrange(from, to) by {
        assert(cdb.subrange(from, to) =~= form.subrange(from, to));
    }
}

/// A command that is not known, or shorter than its form, is answered by INVALID
/// COMMAND OPERATION CODE and does nothing.
pub proof fn unknown_commands_on_the_wire<D: BlockDevice>(
    identity: Identity,
    pre: D,
    cdb: Seq<u8>,
    data_out: Seq<u8>,
    post: D,
    reply: Reply,
)
    requires
        semantics::answers(identity, pre, cdb, data_out, post, reply),
        cdb.len() == 0 || !is_known(cdb[0]) || (cdb[0] != 0x03 && cdb.len() < form_len(cdb[0])),
    ensures
        post == pre,
        is_refusal(reply, 5, 0x20),
{
    replies_on_the_wire(Seq::empty(), 0, 0, 0, 0);
}

/// TEST UNIT READY and SYNCHRONIZE CACHE succeed and do nothing.
pub proof fn idle_commands_on_the_wire<D: BlockDevice>(
    identity: Identity,
    pre: D,
    cdb: Seq<u8>,
    data_out: Seq<u8>,
    post: D,
    reply: Reply,
)
    requires
        semantics::answers(identity, pre, cdb, data_out, post, reply),
        cdb.len() > 0,
        cdb[0] == 0x00 || cdb[0] == 0x35 || cdb[0] == 0x91,
    ensures
        post == pre,
        is_good(reply, Seq::empty()),
{
}

/// REQUEST SENSE says that there is nothing to report.
pub proof fn request_sense_on_the_wire<D: BlockDevice>(
    identity: Identity,
    pre: D,
    cdb: Seq<u8>,
    data_out: Seq<u8>,
    post: D,
    reply: Reply,
)
    requires
        semantics::answers(identity, pre, cdb, data_out, post, reply),
        cdb.len() > 0,
        cdb[0] == 0x03,
    ensures
        post == pre,
        is_good_up_to(
            reply,
            seq![0x70u8, 0, 0, 0, 0, 0, 0, 10, 0, 0, 0, 0, 0, 0, 0, 0, 0, 0],
            if cdb.len() > 4 {
                cdb[4] as int
            } else {
                0
            },
        ),
{
    replies_on_the_wire(Seq::empty(), 0, 0, 0, 0);
}

/// The address and the block count of a six-byte command.
pub open spec fn range_6(cdb: Seq<u8>) -> (int, int) {
    (
        (cdb[1] as int % 0x20) * 0x1_0000 + cdb[2] as int * 0x100 + cdb[3] as int,
        if cdb[4] == 0 {
            0x100
        } else {
            cdb[4] as int
        },
    )
}

/// The address and the block count of a ten-byte command.
pub open spec fn range_10(cdb: Seq<u8>) -> (int, int) {
    (u32_at(cdb, 2), u16_at(cdb, 7))
}

/// The address and the block count of a twelve-byte command.
pub open spec fn range_12(cdb: Seq<u8>) -> (int, int) {
    (u32_at(cdb, 2), u32_at(cdb, 6))
}

/// The address and the block count of a sixteen-byte command.
pub open spec fn range_16(cdb: Seq<u8>) -> (int, int) {
    (u64_at(cdb, 2), u32_at(cdb, 10))
}

/// The address and the block count of a READ command, if `cdb` is one.
pub open spec fn read_range(cdb: Seq<u8>) -> Option<(int, int)> {
    if cdb.len() >= 6 && cdb[0] == 0x08 {
        Some(range_6(cdb))
    } else if cdb.len() >= 10 && cdb[0] == 0x28 {
        Some(range_10(cdb))
    } else if cdb.len() >= 12 && cdb[0] == 0xa8 {
        Some(range_12(cdb))
    } else if cdb.len() >= 16 && cdb[0] == 0x88 {
        Some(range_16(cdb))
    } else {
        None
    }
}

/// The address and the block count of a WRITE command, if `cdb` is one.
pub open spec fn write_range(cdb: Seq<u8>) -> Option<(int, int)> {
    if cdb.len() >= 6 && cdb[0] == 0x0a {
        Some(range_6(cdb))
    } else if cdb.len() >= 10 && cdb[0] == 0x2a {
        Some(range_10(cdb))
    } else if cdb.len() >= 12 && cdb[0] == 0xaa {
        Some(range_12(cdb))
    } else if cdb.len() >= 16 && cdb[0] == 0x8a {
        Some(range_16(cdb))
    } else {
        None
    }
}

/// The address and the block count of a WRITE SAME command, if `cdb` is one.
pub open spec fn fill_range(cdb: Seq<u8>) -> Option<(int, int)> {
    if cdb.len() >= 10 && cdb[0] == 0x41 {
        Some(range_10(cdb))
    } else if cdb.len() >= 16 && cdb[0] == 0x93 {
        Some(range_16(cdb))
    } else {
        None
    }
}

/// What the commands that name blocks ask for, whatever their other bytes are and however
/// many follow.
pub proof fn ranges_on_the_wire(cdb: Seq<u8>)
    ensures
        match read_range(cdb) {
            Some((lba, blocks)) => command::requested(cdb) == (Request::Read { lba, blocks })
                && lba >= 0 && blocks >= 0,
            None => command::requested(cdb) !is Read,
        },
        match write_range(cdb) {
            Some((lba, blocks)) => command::requested(cdb) == (Request::Write { lba, blocks })
                && lba >= 0 && blocks >= 0,
            None => command::requested(cdb) !is Write,
        },
        match fill_range(cdb) {
            Some((lba, blocks)) => command::requested(cdb) == (Request::WriteSame { lba, blocks })
                && lba >= 0 && blocks >= 0,
            None => command::requested(cdb) !is WriteSame,
        },
{
    big_endian_numbers(cdb, 2);
    big_endian_numbers(cdb, 6);
    big_endian_numbers(cdb, 7);
    big_endian_numbers(cdb, 10);
}

/// A READ command asks the device for its blocks, 512 bytes each, and is answered with
/// what the device returns; it is refused where it ends beyond the device, or asks for
/// more bytes than memory can hold.
pub proof fn reads_on_the_wire<D: BlockDevice>(
    identity: Identity,
    pre: D,
    cdb: Seq<u8>,
    data_out: Seq<u8>,
    post: D,
    reply: Reply,
    lba: int,
    blocks: int,
)
    requires
        semantics::answers(identity, pre, cdb, data_out, post, reply),
        read_range(cdb) == Some((lba, blocks)),
    ensures
        post == pre,
        (lba + blocks) * 512 > pre.size() || blocks * 512 > usize::MAX ==> is_refusal(
            reply,
            5,
            0x21,
        ),
        (lba + blocks) * 512 <= pre.size() && blocks * 512 <= usize::MAX ==> exists|
            result: Result<Vec<u8>, DeviceError>,
        |
            {
                &&& #[trigger] call_ensures(
                    D::read_at,
                    (&pre, (lba * 512) as u64, (blocks * 512) as usize),
                    result,
                )
                &&& match result {
                    Ok(bytes) => is_good(reply, bytes@),
                    Err(_) => is_refusal(reply, 5, 0x21),
                }
            },
{
    ranges_on_the_wire(cdb);
    replies_on_the_wire(Seq::empty(), 0, 0, 0, 0);
    if (lba + blocks) * 512 <= pre.size() && blocks * 512 <= usize::MAX {
        let result = choose|result: Result<Vec<u8>, DeviceError>| #[trigger]
            block_device::reads_as(
                pre,
                semantics::byte_offset(lba),
                semantics::byte_len(blocks) as usize,
                result,
            ) && reply == semantics::read_reply(result);
        device_results_on_the_wire(result);
    }
}

/// A WRITE command hands its blocks, 512 bytes each, to the device, and is answered as
/// the device answers; it is refused by a read-only device, where it ends beyond the
/// device, and where it comes with too little data, whichever is first.
pub proof fn writes_on_the_wire<D: BlockDevice>(
    identity: Identity,
    pre: D,
    cdb: Seq<u8>,
    data_out: Seq<u8>,
    post: D,
    reply: Reply,
    lba: int,
    blocks: int,
)
    requires
        semantics::answers(identity, pre, cdb, data_out, post, reply),
        write_range(cdb) == Some((lba, blocks)),
    ensures
        ({
            ||| call_ensures(D::is_read_only, (&pre,), true) && post == pre && is_refusal(
                reply,
                7,
                0x27,
            )
            ||| call_ensures(D::is_read_only, (&pre,), false) && if (lba + blocks) * 512
                > pre.size() {
                post == pre && is_refusal(reply, 5, 0x21)
            } else if data_out.len() < blocks * 512 {
                post == pre && is_refusal(reply, 5, 0x24)
            } else {
                exists|target: &mut D, offset: u64, slice: &[u8], result: Result<(), DeviceError>|
                    {
                        &&& #[trigger] call_ensures(D::write_at, (target, offset, slice), result)
                        &&& *target == pre
                        &&& offset == lba * 512
                        &&& slice@ == data_out.subrange(0, blocks * 512)
                        &&& result is Ok ==> is_good(reply, Seq::empty()) && D::write_succeeds(
                            pre,
                            offset,
                            slice@,
                            post,
                        )
                        &&& result is Err ==> is_refusal(reply, 3, 0x0c) && (post == pre
                            || D::write_fails(pre, offset, slice@, post))
                    }
            }
        }),
{
    ranges_on_the_wire(cdb);
    replies_on_the_wire(Seq::empty(), 0, 0, 0, 0);
}

/// How many blocks a WRITE SAME command names on a device of `size` bytes: as many as it
/// says, or all from its address to the end of the device where it says none.
pub open spec fn blocks_named(size: int, lba: int, blocks: int) -> int {
    if blocks > 0 {
        blocks
    } else if lba <= size / 512 {
        size / 512 - lba
    } else {
        0
    }
}

/// A WRITE SAME command is refused by a read-only device and where it ends beyond the
/// device. One that succeeds leaves its first 512 bytes of data in each block that it
/// names, or zeros where it came with less, and every other byte as it was. One that the
/// device fails has done so in the blocks before the one that failed.
pub proof fn fills_on_the_wire<D: BlockDevice>(
    contents: spec_fn(D) -> Seq<u8>,
    identity: Identity,
    pre: D,
    cdb: Seq<u8>,
    data_out: Seq<u8>,
    post: D,
    reply: Reply,
    lba: int,
    blocks: int,
)
    requires
        laws::stores(contents),
        semantics::answers(identity, pre, cdb, data_out, post, reply),
        fill_range(cdb) == Some((lba, blocks)),
    ensures
        ({
            let count = blocks_named(pre.size() as int, lba, blocks);
            ||| call_ensures(D::is_read_only, (&pre,), true) && post == pre && is_refusal(
                reply,
                7,
                0x27,
            )
            ||| call_ensures(D::is_read_only, (&pre,), false) && if lba + count > pre.size() as int
                / 512 {
                post == pre && is_refusal(reply, 5, 0x21)
            } else {
                ||| is_good(reply, Seq::empty()) && blocks_hold(
                    contents(pre),
                    contents(post),
                    lba,
                    count,
                    data_out,
                )
                ||| is_refusal(reply, 3, 0x0c) && count > 0
            }
        }),
        reply.status == 0 ==> forall|block: int|
            lba <= block < lba + blocks_named(pre.size() as int, lba, blocks)
                ==> (#[trigger] contents(post).subrange(block * 512, block * 512 + 512)) == if data_out.len()
                >= 512 {
                data_out.take(512)
            } else {
                Seq::new(512, |i: int| 0u8)
            },
{
    ranges_on_the_wire(cdb);
    replies_on_the_wire(Seq::empty(), 0, 0, 0, 0);
    let count = blocks_named(pre.size() as int, lba, blocks);
    assert(count == semantics::fill_count(pre.size() as int, lba, blocks));
    if reply.status == 0 {
        laws::write_same_fills_blocks(
            contents,
            identity,
            pre,
            cdb,
            data_out,
            post,
            reply,
            lba,
            blocks,
        );
        let zeros = Seq::new(512, |i: int| 0u8);
        let pattern = semantics::fill_pattern(data_out);
        if data_out.len() < 512 {
            assert(pattern =~= zeros);
        }
        assert(contents(pre).len() == pre.size());
        assert forall|at: int| 0 <= at < contents(post).len() implies #[trigger] contents(post)[at]
            == filled_byte(contents(pre), lba, count, data_out, at) by {
            if lba * 512 <= at < (lba + count) * 512 {
                assert(contents(post)[at] == pattern[at % 512]);
            }
        }
        assert forall|block: int| lba <= block < lba + count implies (#[trigger] contents(
            post,
        ).subrange(block * 512, block * 512 + 512)) == pattern by {
            assert(laws::stored_blocks(contents(post), block, 1) == contents(post).subrange(
                block * 512,
                block * 512 + 512,
            ));
        }
    }
}

/// The byte at `at` after `count` blocks from `lba` on were filled with the first 512
/// bytes of `data_out`, or with zeros where that is shorter.
pub open spec fn filled_byte(
    before: Seq<u8>,
    lba: int,
    count: int,
    data_out: Seq<u8>,
    at: int,
) -> u8 {
    if lba * 512 <= at < (lba + count) * 512 {
        if data_out.len() >= 512 {
            data_out[at % 512]
        } else {
            0
        }
    } else {
        before[at]
    }
}

/// Whether `after` is what `before` becomes where `count` blocks from `lba` on are filled
/// with the first 512 bytes of `data_out`, or with zeros where that is shorter.
pub open spec fn blocks_hold(
    before: Seq<u8>,
    after: Seq<u8>,
    lba: int,
    count: int,
    data_out: Seq<u8>,
) -> bool {
    &&& after.len() == before.len()
    &&& forall|at: int|
        0 <= at < after.len() ==> #[trigger] after[at] == filled_byte(
            before,
            lba,
            count,
            data_out,
            at,
        )
}

/// A WRITE SAME command that the device fails has filled the blocks before the one that
/// failed, and was handed that one, with the data of the others, last.
pub proof fn failed_fills_on_the_wire<D: BlockDevice>(
    contents: spec_fn(D) -> Seq<u8>,
    identity: Identity,
    pre: D,
    cdb: Seq<u8>,
    data_out: Seq<u8>,
    post: D,
    reply: Reply,
    lba: int,
    blocks: int,
) -> (failed: (int, D))
    requires
        laws::stores(contents),
        semantics::answers(identity, pre, cdb, data_out, post, reply),
        fill_range(cdb) == Some((lba, blocks)),
        is_refusal(reply, 3, 0x0c),
    ensures
        0 <= failed.0 < blocks_named(pre.size() as int, lba, blocks),
        blocks_hold(contents(pre), contents(failed.1), lba, failed.0, data_out),
        post == failed.1 || exists|data: Seq<u8>| #[trigger]
            D::write_fails(failed.1, ((lba + failed.0) * 512) as u64, data, post) && data.len()
                == 512,
        exists|target: &mut D, offset: u64, slice: &[u8], result: Result<(), DeviceError>|
            {
                &&& #[trigger] call_ensures(D::write_at, (target, offset, slice), result)
                &&& *target == failed.1
                &&& offset == (lba + failed.0) * 512
                &&& slice@ == if data_out.len() >= 512 {
                    data_out.take(512)
                } else {
                    Seq::new(512, |i: int| 0u8)
                }
                &&& result is Err
            },
{
    ranges_on_the_wire(cdb);
    replies_on_the_wire(Seq::empty(), 0, 0, 0, 0);
    assert(reply =~= command::write_error());
    let (done, mid) = laws::failed_write_same_keeps_filled_blocks(
        contents,
        identity,
        pre,
        cdb,
        data_out,
        post,
        reply,
        lba,
        blocks,
    );
    let zeros = Seq::new(512, |i: int| 0u8);
    let pattern = semantics::fill_pattern(data_out);
    if data_out.len() < 512 {
        assert(pattern =~= zeros);
    }
    assert(contents(pre).len() == pre.size());
    assert forall|at: int| 0 <= at < contents(mid).len() implies #[trigger] contents(mid)[at]
        == filled_byte(contents(pre), lba, done, data_out, at) by {
        if lba * 512 <= at < (lba + done) * 512 {
            assert(contents(mid)[at] == pattern[at % 512]);
        }
    }
    assert((lba + done) * 512 == semantics::byte_offset(lba + done)) by {
        assert((lba + done) * 512 <= pre.size());
    }
    (done, mid)
}

/// A READ command that succeeds returns the bytes from `lba * 512` on, 512 for each
/// block, that the device stores.
pub proof fn stored_bytes_are_read<D: BlockDevice>(
    contents: spec_fn(D) -> Seq<u8>,
    identity: Identity,
    pre: D,
    cdb: Seq<u8>,
    data_out: Seq<u8>,
    post: D,
    reply: Reply,
    lba: int,
    blocks: int,
)
    requires
        laws::stores(contents),
        semantics::answers(identity, pre, cdb, data_out, post, reply),
        read_range(cdb) == Some((lba, blocks)),
        reply.status == 0,
    ensures
        post == pre,
        (lba + blocks) * 512 <= contents(pre).len(),
        is_good(reply, contents(pre).subrange(lba * 512, (lba + blocks) * 512)),
{
    ranges_on_the_wire(cdb);
    replies_on_the_wire(Seq::empty(), 0, 0, 0, 0);
    laws::read_returns_stored_blocks(
        contents,
        identity,
        pre,
        cdb,
        data_out,
        post,
        reply,
        lba,
        blocks,
    );
    assert(contents(pre).len() == pre.size());
}

/// A WRITE command that succeeds stores its data from `lba * 512` on, 512 bytes for each
/// block, and leaves every other byte.
pub proof fn sent_bytes_are_stored<D: BlockDevice>(
    contents: spec_fn(D) -> Seq<u8>,
    identity: Identity,
    pre: D,
    cdb: Seq<u8>,
    data_out: Seq<u8>,
    post: D,
    reply: Reply,
    lba: int,
    blocks: int,
)
    requires
        laws::stores(contents),
        semantics::answers(identity, pre, cdb, data_out, post, reply),
        write_range(cdb) == Some((lba, blocks)),
        reply.status == 0,
    ensures
        is_good(reply, Seq::empty()),
        (lba + blocks) * 512 <= contents(pre).len(),
        contents(post).len() == contents(pre).len(),
        forall|at: int|
            0 <= at < contents(post).len() ==> #[trigger] contents(post)[at] == if lba * 512 <= at
                < (lba + blocks) * 512 {
                data_out[at - lba * 512]
            } else {
                contents(pre)[at]
            },
{
    ranges_on_the_wire(cdb);
    replies_on_the_wire(Seq::empty(), 0, 0, 0, 0);
    laws::write_replaces_blocks(
        contents,
        identity,
        pre,
        cdb,
        data_out,
        post,
        reply,
        lba,
        blocks,
    );
    assert(contents(pre).len() == pre.size());
}

/// The address of the last block of a device of `size` bytes; zero where it has none.
pub open spec fn last_block(size: int) -> int {
    if size >= 512 {
        size / 512 - 1
    } else {
        0
    }
}

/// READ CAPACITY(10) gives the address of the last block, or the largest that fits, and
/// the block size, in four bytes each.
pub proof fn capacity_10_on_the_wire<D: BlockDevice>(
    identity: Identity,
    pre: D,
    cdb: Seq<u8>,
    data_out: Seq<u8>,
    post: D,
    reply: Reply,
)
    requires
        semantics::answers(identity, pre, cdb, data_out, post, reply),
        cdb.len() >= 10,
        cdb[0] == 0x25,
    ensures
        post == pre,
        is_good(reply, reply.data),
        reply.data.len() == 8,
        u32_at(reply.data, 0) == if last_block(pre.size() as int) < 0xffff_ffff {
            last_block(pre.size() as int)
        } else {
            0xffff_ffff
        },
        u32_at(reply.data, 4) == 512,
{
    let last = last_block(pre.size() as int);
    let shown = if last < 0xffff_ffff {
        last
    } else {
        0xffff_ffff
    };
    big_endian_forms(shown as nat);
    big_endian_forms(512);
    assert(reply.data =~= bytes::be_bytes(shown as nat, 4) + bytes::be_bytes(512, 4));
}

/// READ CAPACITY(16) gives the address of the last block in eight bytes, the block size in
/// four, and twenty zeros; another service action is refused.
pub proof fn capacity_16_on_the_wire<D: BlockDevice>(
    identity: Identity,
    pre: D,
    cdb: Seq<u8>,
    data_out: Seq<u8>,
    post: D,
    reply: Reply,
) -> (data: Seq<u8>)
    requires
        semantics::answers(identity, pre, cdb, data_out, post, reply),
        cdb.len() >= 16,
        cdb[0] == 0x9e,
    ensures
        post == pre,
        cdb[1] % 0x20 != 0x10 ==> is_refusal(reply, 5, 0x20),
        cdb[1] % 0x20 == 0x10 ==> {
            &&& is_good_up_to(reply, data, u32_at(cdb, 10))
            &&& data.len() == 32
            &&& u64_at(data, 0) == last_block(pre.size() as int)
            &&& u32_at(data, 8) == 512
            &&& forall|i: int| 12 <= i < 32 ==> #[trigger] data[i] == 0
        },
{
    let last = last_block(pre.size() as int) as nat;
    big_endian_numbers(cdb, 10);
    big_endian_forms(last);
    big_endian_forms(512);
    replies_on_the_wire(Seq::empty(), 0, 0, 0, 0);
    let data = command::capacity_16(pre.size() as int);
    assert(data =~= bytes::be_bytes(last, 8) + bytes::be_bytes(512, 4) + Seq::new(
        20,
        |i: int| 0u8,
    ));
    data
}

/// The bytes of the caching mode page.
pub open spec fn caching_bytes() -> Seq<u8> {
    seq![8u8, 18, 0, 0, 0, 0, 0, 0, 0, 0, 0, 0, 0, 0, 0, 0, 0, 0, 0, 0]
}

/// MODE SENSE gives the caching page, or all pages, which is the same, behind a header
/// with the length and the write-protect bit; other pages are refused.
pub proof fn mode_sense_on_the_wire<D: BlockDevice>(
    identity: Identity,
    pre: D,
    cdb: Seq<u8>,
    data_out: Seq<u8>,
    post: D,
    reply: Reply,
)
    requires
        semantics::answers(identity, pre, cdb, data_out, post, reply),
    ensures
        cdb.len() >= 6 && cdb[0] == 0x1a ==> {
            &&& post == pre
            &&& cdb[2] % 64 == 8 || cdb[2] % 64 == 63 ==> exists|read_only: bool|
                {
                    &&& #[trigger] call_ensures(D::is_read_only, (&pre,), read_only)
                    &&& is_good_up_to(
                        reply,
                        seq![23u8, 0, (if read_only { 0x80u8 } else { 0u8 }), 0] + caching_bytes(),
                        cdb[4] as int,
                    )
                }
            &&& cdb[2] % 64 != 8 && cdb[2] % 64 != 63 ==> is_refusal(reply, 5, 0x20)
        },
        cdb.len() >= 10 && cdb[0] == 0x5a ==> {
            &&& post == pre
            &&& cdb[2] % 64 == 8 || cdb[2] % 64 == 63 ==> exists|read_only: bool|
                {
                    &&& #[trigger] call_ensures(D::is_read_only, (&pre,), read_only)
                    &&& is_good_up_to(
                        reply,
                        seq![0u8, 26, 0, (if read_only { 0x80u8 } else { 0u8 }), 0, 0, 0, 0]
                            + caching_bytes(),
                        u16_at(cdb, 7),
                    )
                }
            &&& cdb[2] % 64 != 8 && cdb[2] % 64 != 63 ==> is_refusal(reply, 5, 0x20)
        },
{
    big_endian_numbers(cdb, 7);
    replies_on_the_wire(Seq::empty(), 0, 0, 0, 0);
    mode_data_on_the_wire(true);
    mode_data_on_the_wire(false);
    if cdb.len() >= 6 && cdb[0] == 0x1a && command::has_mode_page(cdb[2] % 64) {
        let read_only = choose|read_only: bool| #[trigger]
            block_device::reports_read_only(pre, read_only) && reply == response::success(
                response::clipped(command::mode_data_6(read_only), cdb[4] as int),
            );
        replies_on_the_wire(command::mode_data_6(read_only), cdb[4] as int, 0, 0, 0);
        assert(call_ensures(D::is_read_only, (&pre,), read_only));
    }
    if cdb.len() >= 10 && cdb[0] == 0x5a && command::has_mode_page(cdb[2] % 64) {
        let room = u16_at(cdb, 7);
        let read_only = choose|read_only: bool| #[trigger]
            block_device::reports_read_only(pre, read_only) && reply == response::success(
                response::clipped(command::mode_data_10(read_only), room),
            );
        replies_on_the_wire(command::mode_data_10(read_only), room, 0, 0, 0);
        assert(call_ensures(D::is_read_only, (&pre,), read_only));
    }
}

/// The mode pages and the mode data, byte by byte.
pub proof fn mode_data_on_the_wire(read_only: bool)
    ensures
        forall|page_code: u8| #[trigger]
            command::has_mode_page(page_code) <==> page_code == 8 || page_code == 63,
        command::caching_page() == caching_bytes(),
        command::mode_data_6(read_only) == seq![
            23u8,
            0,
            (if read_only {
                0x80u8
            } else {
                0u8
            }),
            0,
        ] + caching_bytes(),
        command::mode_data_10(read_only) == seq![
            0u8,
            26,
            0,
            (if read_only {
                0x80u8
            } else {
                0u8
            }),
            0,
            0,
            0,
            0,
        ] + caching_bytes(),
{
    assert(command::caching_page() =~= caching_bytes());
    assert(command::mode_data_6(read_only) =~= seq![
        23u8,
        0,
        (if read_only {
            0x80u8
        } else {
            0u8
        }),
        0,
    ] + caching_bytes());
    assert(command::mode_data_10(read_only) =~= seq![
        0u8,
        26,
        0,
        (if read_only {
            0x80u8
        } else {
            0u8
        }),
        0,
        0,
        0,
        0,
    ] + caching_bytes());
}

/// Blocks have 512 bytes: the count is that of the whole blocks in the size.
pub proof fn block_counts(size: int)
    requires
        size >= 0,
    ensures
        command::block_count(size) * 512 <= size < (command::block_count(size) + 1) * 512,
        command::last_lba(size) == last_block(size),
        scsi::LOGICAL_BLOCK_SIZE == 512,
{
}

/// Which opcodes send data, and which ask for blocks.
pub proof fn data_directions(opcode: u8)
    ensures
        scsi::sends_data(opcode) <==> opcode == 0x15 || opcode == 0x55 || opcode == 0x0a || opcode
            == 0x2a || opcode == 0xaa || opcode == 0x8a || opcode == 0x41 || opcode == 0x93,
        scsi::wants_blocks(opcode) <==> opcode == 0x08 || opcode == 0x28 || opcode == 0xa8
            || opcode == 0x88,
{
}

/// INQUIRY without the VPD bit gives thirty-six bytes: eight fixed ones, the vendor, the
/// product and the revision, each at its place; with a page code it is refused.
pub proof fn inquiry_on_the_wire<D: BlockDevice>(
    config: TcmuDeviceConfig,
    pre: D,
    cdb: Seq<u8>,
    data_out: Seq<u8>,
    post: D,
    reply: Reply,
) -> (data: Seq<u8>)
    requires
        semantics::answers(config@, pre, cdb, data_out, post, reply),
        cdb.len() >= 6,
        cdb[0] == 0x12,
        cdb[1] % 2 == 0,
    ensures
        post == pre,
        cdb[2] != 0 ==> is_refusal(reply, 5, 0x20),
        cdb[2] == 0 ==> is_good_up_to(reply, data, u16_at(cdb, 3)),
        data.len() == 36,
        data.subrange(0, 8) == seq![0u8, 0, 6, 2, 31, 0, 0, 2],
        forall|i: int| 0 <= i < 8 ==> data[8 + i] == #[trigger] config.vendor_id[i],
        forall|i: int| 0 <= i < 16 ==> data[16 + i] == #[trigger] config.product_id[i],
        forall|i: int| 0 <= i < 4 ==> data[32 + i] == #[trigger] config.product_revision[i],
{
    let data = command::inquiry_data(config@);
    big_endian_numbers(cdb, 3);
    replies_on_the_wire(data, u16_at(cdb, 3), 0, 0, 0);
    assert(data.subrange(0, 8) =~= seq![0u8, 0, 6, 2, 31, 0, 0, 2]);
    data
}

/// The lower-case hexadecimal digit for `value`, as an ASCII byte.
pub open spec fn digit_byte(value: int) -> int {
    if value < 10 {
        48 + value
    } else {
        87 + value
    }
}

/// The serial number has two ASCII digits for each identifier byte.
pub proof fn serial_on_the_wire(id: Seq<u8>)
    ensures
        command::serial_bytes(id).len() == 2 * id.len(),
        forall|i: int|
            0 <= i < id.len() ==> command::serial_bytes(id)[2 * i] == digit_byte(
                #[trigger] id[i] as int / 16,
            ) && command::serial_bytes(id)[2 * i + 1] == digit_byte(id[i] as int % 16),
{
    let digits = text::hex_text(id);
    text::hex_text_len(id);
    assert forall|k: int| 0 <= k < digits.len() implies '\0' <= #[trigger] digits[k]
        <= '\u{7f}' by {
        text_laws::hex_text_writes_each_byte(id, k / 2);
        assert(k == 2 * (k / 2) || k == 2 * (k / 2) + 1);
    }
    vstd::utf8::is_ascii_chars_encode_utf8(digits);
    assert forall|i: int| 0 <= i < id.len() implies command::serial_bytes(id)[2 * i]
        == digit_byte(#[trigger] id[i] as int / 16) && command::serial_bytes(id)[2 * i + 1]
        == digit_byte(id[i] as int % 16) by {
        text_laws::hex_text_writes_each_byte(id, i);
        assert(digits[2 * i] as u8 == command::serial_bytes(id)[2 * i]);
        assert(digits[2 * i + 1] as u8 == command::serial_bytes(id)[2 * i + 1]);
    }
}

/// Whether `page` is the page of vital product data with this code, of a device with these
/// identifier bytes: a header that tells the length of what follows, and the serial, or
/// the prefix, a colon and the serial.
pub open spec fn is_page(
    config: TcmuDeviceConfig,
    id: Seq<u8>,
    code: u8,
    page: Seq<u8>,
) -> bool {
    &&& code == 0x00 ==> page == seq![0u8, 0x00, 0, 3, 0x00, 0x80, 0x83]
    &&& code == 0x80 ==> {
        let serial_len = 2 * id.len();
        &&& page.len() == 4 + serial_len
        &&& page[0] == 0
        &&& page[1] == 0x80
        &&& u16_at(page, 2) == serial_len % 0x1_0000
        &&& forall|i: int|
            0 <= i < id.len() ==> page[4 + 2 * i] == digit_byte(#[trigger] id[i] as int / 16)
                && page[5 + 2 * i] == digit_byte(id[i] as int % 16)
    }
    &&& code == 0x83 ==> {
        let prefix = vstd::utf8::encode_utf8(config.device_id_prefix@);
        let name_len = prefix.len() + 1 + 2 * id.len();
        &&& page.len() == 8 + name_len
        &&& page[0] == 0
        &&& page[1] == 0x83
        &&& u16_at(page, 2) == (name_len + 4) % 0x1_0000
        &&& page[4] == 2
        &&& page[5] == 8
        &&& page[6] == 0
        &&& page[7] == name_len % 0x100
        &&& page.subrange(8, 8 + prefix.len() as int) == prefix
        &&& page[8 + prefix.len() as int] == 0x3a
        &&& forall|i: int|
            0 <= i < id.len() ==> page[9 + prefix.len() + 2 * i] == digit_byte(
                #[trigger] id[i] as int / 16,
            ) && page[10 + prefix.len() + 2 * i] == digit_byte(id[i] as int % 16)
    }
    &&& code != 0x00 && code != 0x80 && code != 0x83 ==> page.len() == 0
}

/// The pages of vital product data.
pub proof fn pages_on_the_wire(config: TcmuDeviceConfig, id: Seq<u8>, code: u8)
    ensures
        is_page(config, id, code, command::vpd_data(config@, id, code)),
{
    let page = command::vpd_data(config@, id, code);
    let prefix = vstd::utf8::encode_utf8(config.device_id_prefix@);
    let designator = command::designator_bytes(config@, id);
    serial_on_the_wire(id);
    laws::vpd_pages_hold_the_serial(config@, id);
    big_endian_forms(command::serial_bytes(id).len());
    big_endian_forms(designator.len() + 4);
    big_endian_forms(designator.len());
    if code == 0x83 {
        assert(page.subrange(8, 8 + prefix.len() as int) =~= prefix);
    }
}

/// INQUIRY with the VPD bit gives a page: which pages there are, the serial number in
/// hexadecimal, or the designator, which is the prefix, a colon and the serial number.
/// Other pages are empty.
pub proof fn vital_product_data_on_the_wire<D: BlockDevice>(
    config: TcmuDeviceConfig,
    pre: D,
    cdb: Seq<u8>,
    data_out: Seq<u8>,
    post: D,
    reply: Reply,
) -> (page: Seq<u8>)
    requires
        semantics::answers(config@, pre, cdb, data_out, post, reply),
        cdb.len() >= 6,
        cdb[0] == 0x12,
        cdb[1] % 2 == 1,
    ensures
        post == pre,
        is_good_up_to(reply, page, u16_at(cdb, 3)),
        is_page(config, pre.id(), cdb[2], page),
{
    let page = command::vpd_data(config@, pre.id(), cdb[2]);
    big_endian_numbers(cdb, 3);
    replies_on_the_wire(page, u16_at(cdb, 3), 0, 0, 0);
    pages_on_the_wire(config, pre.id(), cdb[2]);
    page
}

/// What the processor does to a command is what its device and its identity answer, and
/// its identity stays.
pub proof fn execution_is_the_answer<D: BlockDevice>(
    pre: TcmuDevice<D>,
    cdb: Seq<u8>,
    data_out: Seq<u8>,
    post: TcmuDevice<D>,
    reply: Reply,
)
    requires
        device::executed(pre, cdb, data_out, post, reply),
    ensures
        semantics::answers(pre.identity(), pre.backing(), cdb, data_out, post.backing(), reply),
        post.identity() == pre.identity(),
{
}

/// The values of the identity and of replies are those of their fields.
pub proof fn views_on_the_wire(config: TcmuDeviceConfig, response: response::TcmuResponse)
    ensures
        config@.vendor_id == config.vendor_id@,
        config@.product_id == config.product_id@,
        config@.product_revision == config.product_revision@,
        config@.device_id_prefix == config.device_id_prefix@,
        response@.status == response.status,
        response@.data == response.data@,
        response@.sense == response.sense@,
{
}

/// A WRITE command is handed to the device exactly where it is in range, comes with
/// enough data and is not answered by WRITE PROTECTED; then the device is asked, as it
/// was, to write that data at `lba * 512`, and the reply follows.
pub proof fn handed_over_on_the_wire<D: BlockDevice>(
    pre: D,
    cdb: Seq<u8>,
    data_out: Seq<u8>,
    at: D,
    offset: u64,
    data: Seq<u8>,
    ok: bool,
    reply: Reply,
    lba: int,
    blocks: int,
)
    requires
        write_range(cdb) == Some((lba, blocks)),
    ensures
        semantics::writing_is_due(pre, cdb, data_out, reply) <==> !is_refusal(reply, 7, 0x27) && (
        lba + blocks) * 512 <= pre.size() && data_out.len() >= blocks * 512,
        (lba + blocks) * 512 <= pre.size() ==> (semantics::last_write_made(
            pre,
            cdb,
            data_out,
            at,
            offset,
            data,
            ok,
            reply,
        ) <==> {
            &&& at == pre
            &&& offset == lba * 512
            &&& data == data_out.take(blocks * 512)
            &&& ok ==> is_good(reply, Seq::empty())
            &&& !ok ==> is_refusal(reply, 3, 0x0c)
        }),
{
    ranges_on_the_wire(cdb);
    replies_on_the_wire(Seq::empty(), 0, 0, 0, 0);
    if is_refusal(reply, 7, 0x27) {
        assert(reply =~= command::write_protected());
    }
    if is_refusal(reply, 3, 0x0c) {
        assert(reply =~= command::write_error());
    }
    if is_good(reply, Seq::empty()) {
        assert(reply =~= semantics::write_reply(true));
    }
}

/// A WRITE SAME command is handed to the device exactly where it is in range, names a
/// block and is not answered by WRITE PROTECTED; the last block that the device is asked
/// to write is the last one named, or one whose write failed.
pub proof fn fills_handed_over_on_the_wire<D: BlockDevice>(
    pre: D,
    cdb: Seq<u8>,
    data_out: Seq<u8>,
    at: D,
    offset: u64,
    data: Seq<u8>,
    ok: bool,
    reply: Reply,
    lba: int,
    blocks: int,
)
    requires
        fill_range(cdb) == Some((lba, blocks)),
    ensures
        ({
            let count = blocks_named(pre.size() as int, lba, blocks);
            &&& semantics::writing_is_due(pre, cdb, data_out, reply) <==> !is_refusal(
                reply,
                7,
                0x27,
            ) && (lba + count) * 512 <= pre.size() && count > 0
            &&& (lba + count) * 512 <= pre.size() && semantics::last_write_made(
                pre,
                cdb,
                data_out,
                at,
                offset,
                data,
                ok,
                reply,
            ) ==> {
                &&& lba * 512 <= offset < (lba + count) * 512
                &&& offset % 512 == 0
                &&& data == if data_out.len() >= 512 {
                    data_out.take(512)
                } else {
                    Seq::new(512, |i: int| 0u8)
                }
                &&& ok ==> is_good(reply, Seq::empty()) && offset == (lba + count - 1) * 512
                &&& !ok ==> is_refusal(reply, 3, 0x0c)
            }
        }),
{
    ranges_on_the_wire(cdb);
    replies_on_the_wire(Seq::empty(), 0, 0, 0, 0);
    let count = blocks_named(pre.size() as int, lba, blocks);
    assert(count == semantics::fill_count(pre.size() as int, lba, blocks));
    if is_refusal(reply, 7, 0x27) {
        assert(reply =~= command::write_protected());
    }
    if data_out.len() < 512 {
        assert(semantics::fill_pattern(data_out) =~= Seq::new(512, |i: int| 0u8));
    }
}

} // verus!
